//! Typed failures from operating the authoritative store.

use vstd::prelude::*;

use crate::text::{i64_to_text, int_text};

verus! {

/// A store-level failure, typed so callers can react to a fail-closed
/// condition rather than parse message text.
#[derive(Debug, Clone, PartialEq, Eq)]
pub enum StoreError {
    /// The durable substrate underneath the store failed; carries its
    /// description.
    Storage(String),
    /// A row would break one of the stored schema's own constraints.
    ConstraintViolated(String),
    /// The database names a schema version newer than any migration this
    /// build knows about.
    UnsupportedSchemaVersion { found: i64, max_known: i64 },
    /// Migration bookkeeping disagrees with the compiled migration set.
    InconsistentMigrationState(String),
    /// A migration failed to apply and was rolled back in full.
    MigrationFailed { version: i64, name: String, detail: String },
    /// A connection policy setting did not read back as required.
    PolicyVerificationFailed(String),
    /// A revisioned mutation named a revision that is not current:
    /// `actual` is `Some` for a stale revision and `None` for a missing row.
    RevisionConflict { table: &'static str, id: String, expected: i64, actual: Option<i64> },
    /// A condition that must be impossible was observed; nothing commits.
    InvariantViolated(String),
    /// This process already has an open store for the database file.
    AlreadyOpen { path: String },
    /// The command carried an epoch that is not the current
    /// RestoreGeneration.
    StaleCommandEpoch { supplied: String, current: String },
    /// The command identity was already used in this epoch with a different
    /// request hash.
    CommandConflict { command_id: String },
    /// A Goal cannot be cancelled from the phase it is in.
    GoalNotCancellable { goal_id: String, phase: &'static str, terminal_target: Option<String> },
    /// The Task named as a Workspace holder may not acquire one.
    WorkspaceHolderIneligible { task_id: String, phase: &'static str },
    /// The Task already owns a current Workspace.
    WorkspaceAlreadyCurrent { task_id: String, workspace_id: String },
    /// The Workspace has been mutable to an execution owner and cannot be
    /// rebuilt.
    WorkspaceNotRematerializable { workspace_id: String, phase: &'static str },
    /// A Run-intent commit was refused because dispatch is durably paused.
    DispatchPaused,
    /// A Run-intent commit was refused because the single execution slot is
    /// held.
    DispatchSlotUnavailable { held_by_run: String, held_for_task: String },
    /// The Task named for a Run-intent commit is not dispatchable.
    TaskNotDispatchable { task_id: String, phase: &'static str, active_run_id: Option<String> },
    /// The Goal owning the Task fences new Runs.
    GoalNotDispatchable { goal_id: String, phase: &'static str },
    /// Materialization established a base other than the bound one.
    WorkspaceBaseMismatch { workspace_id: String, bound: String, verified: String },
    /// A connection the store needs could not be used.
    ConnectionUnavailable(String),
    /// An Agent Control credential failed the session fences.
    AgentControlUnauthorized { attempt_id: String, reason: &'static str },
    /// An Agent Control request identity was reused with a different hash.
    AgentRequestConflict { attempt_id: String, request_id: String },
    /// The Run is not ready for a new Attempt.
    AttemptNotLaunchReady { run_id: String, detail: String },
    /// A pre-contact credential rekey is not permitted.
    AgentControlRekeyForbidden { attempt_id: String, detail: String },
    /// The launch-contact marker cannot be crossed under current authority.
    LaunchContactStaleAuthority { attempt_id: String, detail: String },
    /// No Run with this id exists.
    RunNotFound { run_id: String },
    /// An attachment names another source snapshot than the Run froze.
    ContextSourceMismatch { run_id: String, frozen: String, proposed: String },
    /// A content address does not name the claimed content.
    ContentIdentityConflict { table: &'static str, id: String, detail: String },
    /// A different ContextPlan is already attached to the Run.
    RunContextPlanConflict { run_id: String, attached_plan: String, proposed_plan: String },
    /// The Attempt no longer carries the Run and Task authority a
    /// submission needs.
    SubmissionStaleAuthority { attempt_id: String, detail: String },
    /// A Candidate does not satisfy the Task's spec or its Artifacts.
    CandidateInvalid { detail: String },
    /// A Candidate names content its Run did not produce for the slot.
    CandidateProvenanceInvalid { detail: String },
    /// The Run already has a Candidate.
    CandidateExists { run_id: String, candidate_digest: String },
    /// The authority a seal depends on no longer holds.
    SealAuthorityInvalid { workspace_id: String, detail: String },
    /// The Run already owns a current Sandbox.
    SandboxAlreadyCurrent { run_id: String, sandbox_id: String },
}

/// The human-readable message of a failure: a fixed sentence per kind,
/// with the failure's own fields spliced in, numbers in decimal.
pub open spec fn error_message(e: StoreError) -> Seq<char> {
    match e {
        StoreError::Storage(detail) => "sqlite error: "@ + detail@,
        StoreError::ConstraintViolated(detail) => "schema constraint violated: "@ + detail@,
        StoreError::UnsupportedSchemaVersion { found, max_known } => "database schema version "@ + int_text(found as int) + " is newer than the highest migration this build knows ("@ + int_text(max_known as int) + ")"@,
        StoreError::InconsistentMigrationState(detail) => "inconsistent migration bookkeeping: "@ + detail@,
        StoreError::MigrationFailed { version, name, detail } => "migration "@ + int_text(version as int) + " ("@ + name@ + ") failed and was rolled back: "@ + detail@,
        StoreError::PolicyVerificationFailed(detail) => "connection policy verification failed: "@ + detail@,
        StoreError::AlreadyOpen { path } => "this process already has an open store for "@ + path@,
        StoreError::StaleCommandEpoch { supplied, current } => "stale command epoch "@ + supplied@ + ": the current restore generation is "@ + current@,
        StoreError::CommandConflict { command_id } => "command "@ + command_id@ + " was already used in this epoch with a different request hash"@,
        StoreError::InvariantViolated(detail) => "store invariant violated: "@ + detail@,
        StoreError::WorkspaceHolderIneligible { task_id, phase } => "task "@ + task_id@ + " is "@ + phase@ + " and may not acquire a workspace"@,
        StoreError::WorkspaceAlreadyCurrent { task_id, workspace_id } => "task "@ + task_id@ + " already owns current workspace "@ + workspace_id@,
        StoreError::WorkspaceNotRematerializable { workspace_id, phase } => "workspace "@ + workspace_id@ + " is "@ + phase@ + " and has already been mutable, so it cannot be rematerialized"@,
        StoreError::WorkspaceBaseMismatch { workspace_id, bound, verified } => "workspace "@ + workspace_id@ + " is bound to base "@ + bound@ + " but materialization established "@ + verified@,
        StoreError::DispatchPaused => "dispatch is durably paused; new Run intents are fenced until resume"@,
        StoreError::DispatchSlotUnavailable { held_by_run, held_for_task } => "the single execution slot is held by run "@ + held_by_run@ + " (task "@ + held_for_task@ + ")"@,
        StoreError::GoalNotDispatchable { goal_id, phase } => "goal "@ + goal_id@ + " is "@ + phase@ + "; its Tasks are not dispatchable"@,
        StoreError::ConnectionUnavailable(detail) => "store connection unavailable: "@ + detail@,
        StoreError::AgentControlUnauthorized { attempt_id, reason } => "agent control credential for attempt "@ + attempt_id@ + " refused: "@ + reason@,
        StoreError::AgentRequestConflict { attempt_id, request_id } => "agent request "@ + request_id@ + " of attempt "@ + attempt_id@ + " was already used with a different request hash"@,
        StoreError::AttemptNotLaunchReady { run_id, detail } => "run "@ + run_id@ + " is not ready for a new attempt: "@ + detail@,
        StoreError::AgentControlRekeyForbidden { attempt_id, detail } => "attempt "@ + attempt_id@ + " may not be rekeyed: "@ + detail@,
        StoreError::LaunchContactStaleAuthority { attempt_id, detail } => "launch contact for attempt "@ + attempt_id@ + " refused: "@ + detail@,
        StoreError::RunNotFound { run_id } => "no run "@ + run_id@ + " exists"@,
        StoreError::ContextSourceMismatch { run_id, frozen, proposed } => "run "@ + run_id@ + " froze context source snapshot "@ + frozen@ + ", not "@ + proposed@,
        StoreError::ContentIdentityConflict { table, id, detail } => table@ + " row "@ + id@ + " does not hold the content its address names: "@ + detail@,
        StoreError::RunContextPlanConflict { run_id, attached_plan, proposed_plan } => "run "@ + run_id@ + " already has context plan "@ + attached_plan@ + " attached, not "@ + proposed_plan@,
        StoreError::SubmissionStaleAuthority { attempt_id, detail } => "attempt "@ + attempt_id@ + " no longer carries submission authority: "@ + detail@,
        StoreError::CandidateInvalid { detail } => "candidate is invalid: "@ + detail@,
        StoreError::CandidateProvenanceInvalid { detail } => "candidate provenance is invalid: "@ + detail@,
        StoreError::CandidateExists { run_id, candidate_digest } => "run "@ + run_id@ + " already has candidate "@ + candidate_digest@,
        StoreError::SealAuthorityInvalid { workspace_id, detail } => "seal authority for workspace "@ + workspace_id@ + " no longer holds: "@ + detail@,
        StoreError::SandboxAlreadyCurrent { run_id, sandbox_id } => "run "@ + run_id@ + " already owns current sandbox "@ + sandbox_id@,
        StoreError::GoalNotCancellable { goal_id, phase, terminal_target } => match terminal_target {
            Some(target) => "goal "@ + goal_id@ + " is "@ + phase@ + " toward "@ + target@ + " and cannot be cancelled"@,
            None => "goal "@ + goal_id@ + " is "@ + phase@ + " and cannot be cancelled"@,
        },
        StoreError::RevisionConflict { table, id, expected, actual } => match actual {
            Some(a) => "stale revision for "@ + table@ + " row "@ + id@ + ": expected "@ + int_text(expected as int)
                + ", found "@ + int_text(a as int),
            None => "no "@ + table@ + " row "@ + id@ + " to mutate at expected revision "@ + int_text(expected as int),
        },
        StoreError::TaskNotDispatchable { task_id, phase, active_run_id } => match active_run_id {
            Some(run) => "task "@ + task_id@ + " is "@ + phase@ + " with responsible run "@ + run@ + " and cannot dispatch"@,
            None => "task "@ + task_id@ + " is "@ + phase@ + " and cannot dispatch"@,
        },
    }
}

impl StoreError {
    /// This failure's message, exactly as `error_message` spells it.
    pub fn message(&self) -> (m: String)
        ensures
            m@ == error_message(*self),
    {
        match self {
            StoreError::Storage(detail) => {
                let mut m: String = "sqlite error: ".to_string();
                m.append(detail.as_str());
                m
            },
            StoreError::ConstraintViolated(detail) => {
                let mut m: String = "schema constraint violated: ".to_string();
                m.append(detail.as_str());
                m
            },
            StoreError::UnsupportedSchemaVersion { found, max_known } => {
                let mut m: String = "database schema version ".to_string();
                m.append(i64_to_text(*found).as_str());
                m.append(" is newer than the highest migration this build knows (");
                m.append(i64_to_text(*max_known).as_str());
                m.append(")");
                m
            },
            StoreError::InconsistentMigrationState(detail) => {
                let mut m: String = "inconsistent migration bookkeeping: ".to_string();
                m.append(detail.as_str());
                m
            },
            StoreError::MigrationFailed { version, name, detail } => {
                let mut m: String = "migration ".to_string();
                m.append(i64_to_text(*version).as_str());
                m.append(" (");
                m.append(name.as_str());
                m.append(") failed and was rolled back: ");
                m.append(detail.as_str());
                m
            },
            StoreError::PolicyVerificationFailed(detail) => {
                let mut m: String = "connection policy verification failed: ".to_string();
                m.append(detail.as_str());
                m
            },
            StoreError::AlreadyOpen { path } => {
                let mut m: String = "this process already has an open store for ".to_string();
                m.append(path.as_str());
                m
            },
            StoreError::StaleCommandEpoch { supplied, current } => {
                let mut m: String = "stale command epoch ".to_string();
                m.append(supplied.as_str());
                m.append(": the current restore generation is ");
                m.append(current.as_str());
                m
            },
            StoreError::CommandConflict { command_id } => {
                let mut m: String = "command ".to_string();
                m.append(command_id.as_str());
                m.append(" was already used in this epoch with a different request hash");
                m
            },
            StoreError::InvariantViolated(detail) => {
                let mut m: String = "store invariant violated: ".to_string();
                m.append(detail.as_str());
                m
            },
            StoreError::WorkspaceHolderIneligible { task_id, phase } => {
                let mut m: String = "task ".to_string();
                m.append(task_id.as_str());
                m.append(" is ");
                m.append(*phase);
                m.append(" and may not acquire a workspace");
                m
            },
            StoreError::WorkspaceAlreadyCurrent { task_id, workspace_id } => {
                let mut m: String = "task ".to_string();
                m.append(task_id.as_str());
                m.append(" already owns current workspace ");
                m.append(workspace_id.as_str());
                m
            },
            StoreError::WorkspaceNotRematerializable { workspace_id, phase } => {
                let mut m: String = "workspace ".to_string();
                m.append(workspace_id.as_str());
                m.append(" is ");
                m.append(*phase);
                m.append(" and has already been mutable, so it cannot be rematerialized");
                m
            },
            StoreError::WorkspaceBaseMismatch { workspace_id, bound, verified } => {
                let mut m: String = "workspace ".to_string();
                m.append(workspace_id.as_str());
                m.append(" is bound to base ");
                m.append(bound.as_str());
                m.append(" but materialization established ");
                m.append(verified.as_str());
                m
            },
            StoreError::DispatchPaused => {
                let mut m: String = "dispatch is durably paused; new Run intents are fenced until resume".to_string();
                m
            },
            StoreError::DispatchSlotUnavailable { held_by_run, held_for_task } => {
                let mut m: String = "the single execution slot is held by run ".to_string();
                m.append(held_by_run.as_str());
                m.append(" (task ");
                m.append(held_for_task.as_str());
                m.append(")");
                m
            },
            StoreError::GoalNotDispatchable { goal_id, phase } => {
                let mut m: String = "goal ".to_string();
                m.append(goal_id.as_str());
                m.append(" is ");
                m.append(*phase);
                m.append("; its Tasks are not dispatchable");
                m
            },
            StoreError::ConnectionUnavailable(detail) => {
                let mut m: String = "store connection unavailable: ".to_string();
                m.append(detail.as_str());
                m
            },
            StoreError::AgentControlUnauthorized { attempt_id, reason } => {
                let mut m: String = "agent control credential for attempt ".to_string();
                m.append(attempt_id.as_str());
                m.append(" refused: ");
                m.append(*reason);
                m
            },
            StoreError::AgentRequestConflict { attempt_id, request_id } => {
                let mut m: String = "agent request ".to_string();
                m.append(request_id.as_str());
                m.append(" of attempt ");
                m.append(attempt_id.as_str());
                m.append(" was already used with a different request hash");
                m
            },
            StoreError::AttemptNotLaunchReady { run_id, detail } => {
                let mut m: String = "run ".to_string();
                m.append(run_id.as_str());
                m.append(" is not ready for a new attempt: ");
                m.append(detail.as_str());
                m
            },
            StoreError::AgentControlRekeyForbidden { attempt_id, detail } => {
                let mut m: String = "attempt ".to_string();
                m.append(attempt_id.as_str());
                m.append(" may not be rekeyed: ");
                m.append(detail.as_str());
                m
            },
            StoreError::LaunchContactStaleAuthority { attempt_id, detail } => {
                let mut m: String = "launch contact for attempt ".to_string();
                m.append(attempt_id.as_str());
                m.append(" refused: ");
                m.append(detail.as_str());
                m
            },
            StoreError::RunNotFound { run_id } => {
                let mut m: String = "no run ".to_string();
                m.append(run_id.as_str());
                m.append(" exists");
                m
            },
            StoreError::ContextSourceMismatch { run_id, frozen, proposed } => {
                let mut m: String = "run ".to_string();
                m.append(run_id.as_str());
                m.append(" froze context source snapshot ");
                m.append(frozen.as_str());
                m.append(", not ");
                m.append(proposed.as_str());
                m
            },
            StoreError::ContentIdentityConflict { table, id, detail } => {
                let mut m: String = (*table).to_string();
                m.append(" row ");
                m.append(id.as_str());
                m.append(" does not hold the content its address names: ");
                m.append(detail.as_str());
                m
            },
            StoreError::RunContextPlanConflict { run_id, attached_plan, proposed_plan } => {
                let mut m: String = "run ".to_string();
                m.append(run_id.as_str());
                m.append(" already has context plan ");
                m.append(attached_plan.as_str());
                m.append(" attached, not ");
                m.append(proposed_plan.as_str());
                m
            },
            StoreError::SubmissionStaleAuthority { attempt_id, detail } => {
                let mut m: String = "attempt ".to_string();
                m.append(attempt_id.as_str());
                m.append(" no longer carries submission authority: ");
                m.append(detail.as_str());
                m
            },
            StoreError::CandidateInvalid { detail } => {
                let mut m: String = "candidate is invalid: ".to_string();
                m.append(detail.as_str());
                m
            },
            StoreError::CandidateProvenanceInvalid { detail } => {
                let mut m: String = "candidate provenance is invalid: ".to_string();
                m.append(detail.as_str());
                m
            },
            StoreError::CandidateExists { run_id, candidate_digest } => {
                let mut m: String = "run ".to_string();
                m.append(run_id.as_str());
                m.append(" already has candidate ");
                m.append(candidate_digest.as_str());
                m
            },
            StoreError::SealAuthorityInvalid { workspace_id, detail } => {
                let mut m: String = "seal authority for workspace ".to_string();
                m.append(workspace_id.as_str());
                m.append(" no longer holds: ");
                m.append(detail.as_str());
                m
            },
            StoreError::SandboxAlreadyCurrent { run_id, sandbox_id } => {
                let mut m: String = "run ".to_string();
                m.append(run_id.as_str());
                m.append(" already owns current sandbox ");
                m.append(sandbox_id.as_str());
                m
            },
            StoreError::GoalNotCancellable { goal_id, phase, terminal_target } => {
                let mut m: String = "goal ".to_string();
                m.append(goal_id.as_str());
                m.append(" is ");
                m.append(*phase);
                match terminal_target {
                    Some(target) => {
                        m.append(" toward ");
                        m.append(target.as_str());
                        m.append(" and cannot be cancelled");
                    },
                    None => {
                        m.append(" and cannot be cancelled");
                    },
                }
                m
            },
            StoreError::RevisionConflict { table, id, expected, actual } => {
                match actual {
                    Some(a) => {
                        let mut m: String = "stale revision for ".to_string();
                        m.append(*table);
                        m.append(" row ");
                        m.append(id.as_str());
                        m.append(": expected ");
                        m.append(i64_to_text(*expected).as_str());
                        m.append(", found ");
                        m.append(i64_to_text(*a).as_str());
                        m
                    },
                    None => {
                        let mut m: String = "no ".to_string();
                        m.append(*table);
                        m.append(" row ");
                        m.append(id.as_str());
                        m.append(" to mutate at expected revision ");
                        m.append(i64_to_text(*expected).as_str());
                        m
                    },
                }
            },
            StoreError::TaskNotDispatchable { task_id, phase, active_run_id } => {
                let mut m: String = "task ".to_string();
                m.append(task_id.as_str());
                m.append(" is ");
                m.append(*phase);
                match active_run_id {
                    Some(run) => {
                        m.append(" with responsible run ");
                        m.append(run.as_str());
                        m.append(" and cannot dispatch");
                    },
                    None => {
                        m.append(" and cannot dispatch");
                    },
                }
                m
            },
        }
    }
}

} // verus!
