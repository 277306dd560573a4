//! Properties that span the store's operations: what a committed command
//! means to every later retry, what the journal promises about positions,
//! and the execution fences that one transition sets for another.

use vstd::prelude::*;

use crate::agent_control::{session_facts, SessionFacts};
use crate::command::{
    class_of, command_recorded, lemma_ledger_row, ledger_row, Command, CommandClass, JournalCursor,
};
use crate::configuration::max_activation;
use crate::execution::{
    contact_decision, contact_marked, rekey_decision, session_key, session_revoked, status_key,
    ContactDecision, RekeyDecision,
};
use crate::migrations::{max_known, recorded_state_ok, Migration};
use crate::operator::{events_after_spec, events_through, lemma_events_through};
use crate::store::Store;
use crate::command::Committed;
use crate::error::StoreError;
use crate::sandbox::{
    sandbox_id_key, starts_only_from, transition_contract, SandboxPhase, SandboxPresence, SandboxRecord,
};
use crate::table::{find_last, has_key, lemma_find_last, lemma_find_last_is};
use crate::artifacts::{
    artifact_key, bound_revision_id, checkpoint_key, lemma_merge_sizes, lemma_merge_stored_is_identity,
    lemma_merge_stores, production_key, seal_authority_holds, seal_decision, seal_published, SealDecision,
    SealOutcome, SealedChangeset,
};
use crate::context::{attach_decision, context_plan_key, plans_after, AttachDecision, ContextPlanAttachment};
use crate::dispatch::{run_intent_applied, run_intent_decision, RunIntentDecision};
use crate::execution::{plan_key, run_key};
use crate::planning::{materialize_decision, materialized, operation_key, MaterializablePlan, MaterializeDecision, MaterializedPlan};
use crate::scheduling::{slot_held, RunIntent, RunIntentCommit};
use crate::submission::{
    derived_run, reconcile_index, reconciled_outcome, submission_decision, submitted, CandidateSubmission,
    SubmissionDecision,
};
use crate::agent_control::request_key;
use crate::execution::attempt_key;
use crate::text::bytes_hex;
use crate::agent_control::SubmissionOutcome;
use crate::cancel::{
    cancel_decision, cancel_exhausted, fence_count, fence_touches, fenced_by, fenced_task, goal_cancelled, goal_target_of,
    goal_cancelled_reason, lemma_fence_count_zero, task_target_of, Cancellation,
};
use crate::dispatch::goal_dispatchable;
use crate::planning::{goal_key, task_key, GoalPhase, GoalRecord, TaskPhase};
use crate::table::lemma_find_last_update;
use crate::order::{lemma_sorted_from_items, sorted_by_text};
use crate::scheduling::{
    candidate_of, dispatch_candidates, lemma_candidate_source, sourced_from, sourced_in, task_dispatchable_at, workspace_serves,
    WorkspaceRow,
};

verus! {

/// A command that executed is recognized on every retry: the same identity
/// and request hash, presented to the state it produced, is classified as a
/// replay of exactly the cursor it recorded. Every command operation answers
/// such a retry with that cursor and changes nothing.
pub proof fn law_replay_returns_recorded_cursor(before: Store, after: Store, c: Command, cursor: JournalCursor)
    requires
        before.wf(),
        after.wf(),
        class_of(before, c) is Fresh,
        command_recorded(before, after, c, cursor),
    ensures
        class_of(after, c) is Replay,
        ledger_row(after.commands@, c.epoch@, c.id@).journal_epoch@ == cursor.epoch@,
        ledger_row(after.commands@, c.epoch@, c.id@).sequence == cursor.sequence,
{
    let last = after.commands@.len() - 1;
    lemma_ledger_row(after.commands@, last, c.epoch@, c.id@);
}

/// Reusing a committed command identity with a different request hash is a
/// caller defect, never a retry: it is classified as a conflict, which every
/// command operation refuses without changing anything.
pub proof fn law_reuse_with_another_hash_conflicts(
    before: Store,
    after: Store,
    c: Command,
    cursor: JournalCursor,
    other: Command,
)
    requires
        before.wf(),
        after.wf(),
        class_of(before, c) is Fresh,
        command_recorded(before, after, c, cursor),
        other.epoch@ == c.epoch@,
        other.id@ == c.id@,
        other.request_hash@ != c.request_hash@,
    ensures
        class_of(after, other) is Conflict,
{
    let last = after.commands@.len() - 1;
    lemma_ledger_row(after.commands@, last, c.epoch@, c.id@);
}

/// The epoch fence comes first: a command whose epoch is not the current
/// RestoreGeneration is stale whatever the ledger holds for its identity.
pub proof fn law_stale_epoch_is_fenced_before_the_ledger(s: Store, c: Command)
    requires
        c.epoch@ != s.restore_generation@,
    ensures
        class_of(s, c) is Stale,
{
}

/// A new command's Event lands strictly after every Event already in the
/// journal, at the position the cursor names, in the same journal history.
pub proof fn law_command_cursor_follows_history(before: Store, after: Store, c: Command, cursor: JournalCursor)
    requires
        before.wf(),
        command_recorded(before, after, c, cursor),
    ensures
        forall|i: int| 0 <= i < before.events@.len() ==> (#[trigger] before.events@[i]).sequence < cursor.sequence,
        after.events@.last().sequence == cursor.sequence,
        after.events@.last().journal_epoch@ == cursor.epoch@,
        cursor.sequence >= 1,
{
}

/// Once launch contact is durably marked, the pre-contact rekey is closed
/// for that Attempt: whatever credential revision a later rekey names, it is
/// forbidden.
pub proof fn law_contact_forbids_rekey(
    before: Store,
    after: Store,
    run_id: Seq<char>,
    attempt_id: Seq<char>,
    controller_epoch: Seq<char>,
    expected_status_revision: i64,
    expected_credential_revision: i64,
    rekey_expected: i64,
)
    requires
        before.wf(),
        contact_decision(before, run_id, attempt_id, expected_status_revision, expected_credential_revision)
            is Admitted,
        contact_marked(before, after, attempt_id, controller_epoch),
    ensures
        rekey_decision(after, attempt_id, rekey_expected) is Forbidden,
{
    let si = find_last(before.attempt_status@, status_key(), attempt_id);
    lemma_find_last(before.attempt_status@, status_key(), attempt_id);
    assert forall|j: int| si < j < after.attempt_status@.len() implies (status_key())(
        #[trigger] after.attempt_status@[j],
    ) != attempt_id by {
        assert(after.attempt_status@[j] == before.attempt_status@[j]);
    }
    lemma_find_last_is(after.attempt_status@, status_key(), attempt_id, si);
}

/// A terminal observation closes Agent Control for the Attempt: once its
/// session is revoked, no credential for that Attempt authenticates.
pub proof fn law_revoked_session_never_authenticates(
    before: Store,
    after: Store,
    attempt_id: Seq<char>,
    verifier: Seq<u8>,
)
    requires
        session_revoked(before, after, attempt_id),
    ensures
        !(session_facts(after, attempt_id, verifier) is Authorized),
{
    let se = find_last(before.sessions@, session_key(), attempt_id);
    lemma_find_last(before.sessions@, session_key(), attempt_id);
    if se >= 0 {
        assert forall|j: int| se < j < after.sessions@.len() implies (session_key())(
            #[trigger] after.sessions@[j],
        ) != attempt_id by {
            assert(after.sessions@[j] == before.sessions@[j]);
        }
        lemma_find_last_is(after.sessions@, session_key(), attempt_id, se);
    } else {
        assert(after.sessions@ =~= before.sessions@);
    }
}

/// In every well-formed state a terminal Attempt has durably crossed the
/// launch-contact boundary: nothing can end a lineage that never could have
/// started.
pub proof fn law_terminal_attempts_crossed_contact(s: Store)
    requires
        s.wf(),
    ensures
        forall|i: int|
            0 <= i < s.attempt_status@.len() && (#[trigger] s.attempt_status@[i]).terminal
                ==> s.attempt_status@[i].launch_contact_state is ContactMayHaveOccurred,
{
}

/// In every well-formed state at most one Run holds the single global
/// execution slot.
pub proof fn law_single_execution_slot(s: Store)
    requires
        s.wf(),
    ensures
        forall|i: int, j: int|
            0 <= i < s.run_status@.len() && 0 <= j < s.run_status@.len() && (#[trigger] s.run_status@[i]).active_slot
                && (#[trigger] s.run_status@[j]).active_slot ==> i == j,
{
}

/// A Run carries at most one Candidate: in every well-formed state no two
/// stored Candidates name the same Run.
pub proof fn law_one_candidate_per_run(s: Store)
    requires
        s.wf(),
    ensures
        forall|i: int, j: int|
            0 <= i < s.candidates@.len() && 0 <= j < s.candidates@.len() && i != j ==> (#[trigger] s.candidates@[i]).run_id@
                != (#[trigger] s.candidates@[j]).run_id@,
{
}

/// Each activation is a later revision: the sequence it takes is greater
/// than that of every recorded revision, so re-activating identical content
/// still makes a new, later revision.
pub proof fn law_activation_sequence_is_later(s: Store)
    ensures
        forall|i: int|
            0 <= i < s.configuration_revisions@.len() ==> (#[trigger] s.configuration_revisions@[i]).activation_sequence
                < max_activation(s.configuration_revisions@) + 1,
{
    crate::configuration::lemma_max_activation(s.configuration_revisions@);
}

/// Reopening a database whose bookkeeping records the whole migration set
/// applies nothing further.
pub proof fn law_reopen_applies_nothing(ms: Seq<Migration>, recorded: Seq<crate::migrations::AppliedMigration>)
    requires
        forall|i: int| 0 <= i < ms.len() ==> (#[trigger] ms[i]).version == i + 1,
        recorded_state_ok(ms, recorded, max_known(ms)),
    ensures
        ms.filter(|m: Migration| m.version > max_known(ms)) =~= Seq::<Migration>::empty(),
{
    lemma_filter_none_above(ms, max_known(ms));
}

/// No migration of a contiguously numbered set is above its last version.
proof fn lemma_filter_none_above(ms: Seq<Migration>, v: i64)
    requires
        forall|i: int| 0 <= i < ms.len() ==> (#[trigger] ms[i]).version == i + 1,
        ms.len() <= v,
    ensures
        ms.filter(|m: Migration| m.version > v) =~= Seq::<Migration>::empty(),
    decreases ms.len(),
{
    reveal(Seq::filter);
    if ms.len() > 0 {
        let front = ms.drop_last();
        assert forall|i: int| 0 <= i < front.len() implies (#[trigger] front[i]).version == i + 1 by {
            assert(front[i] == ms[i]);
        }
        lemma_filter_none_above(front, v);
        assert(ms.last().version == ms.len());
    }
}

/// A planning operation materializes at most once: once its plan became a
/// Task, any later materialization of the same operation, for any Task and
/// any plan, is refused as spent.
pub proof fn law_operation_materializes_once(
    before: Store,
    after: Store,
    operation_id: Seq<char>,
    task_id: Seq<char>,
    plan: MaterializablePlan,
    value: MaterializedPlan,
    other_task: Seq<char>,
    other_plan: MaterializablePlan,
)
    requires
        before.wf(),
        materialize_decision(before, operation_id, task_id, plan) is Admitted,
        materialized(before, after, operation_id, task_id, plan, value),
    ensures
        materialize_decision(after, operation_id, other_task, other_plan) is Spent,
{
    let oi = find_last(before.planning_operations@, operation_key(), operation_id);
    lemma_find_last(before.planning_operations@, operation_key(), operation_id);
    assert forall|j: int| oi < j < after.planning_operations@.len() implies (operation_key())(
        #[trigger] after.planning_operations@[j],
    ) != operation_id by {
        assert(after.planning_operations@[j] == before.planning_operations@[j]);
    }
    lemma_find_last_is(after.planning_operations@, operation_key(), operation_id, oi);
}

/// A Run is attached to at most one ContextPlan: once attached, a request to
/// attach a different plan to the same Run can neither attach nor reconcile.
pub proof fn law_one_context_plan_per_run(
    before: Store,
    after: Store,
    attached: ContextPlanAttachment,
    other: ContextPlanAttachment,
)
    requires
        attach_decision(before, attached) is Attached,
        after.run_context_plans@.len() == before.run_context_plans@.len() + 1,
        after.run_context_plans@.last().run_id@ == attached.run_id@,
        after.run_context_plans@.last().context_plan_digest == *attached.plan_digest,
        other.run_id@ == attached.run_id@,
        other.plan_digest@ != attached.plan_digest@,
    ensures
        !(attach_decision(after, other) is Attached),
        !(attach_decision(after, other) is Reconciled),
{
    let last = after.run_context_plans@.len() - 1;
    lemma_find_last_is(after.run_context_plans@, plan_key(), other.run_id@, last);
}

/// Attaching is idempotent on content: once a plan is attached to a Run,
/// presenting the same attachment again, under any command, reconciles to
/// it instead of attaching anything new.
pub proof fn law_same_attachment_reconciles(before: Store, after: Store, a: ContextPlanAttachment)
    requires
        attach_decision(before, a) is Attached,
        plans_after(before.context_plans@, after.context_plans@, a),
        after.run_context_plans@.len() == before.run_context_plans@.len() + 1,
        after.run_context_plans@.drop_last() == before.run_context_plans@,
        after.run_context_plans@.last().run_id@ == a.run_id@,
        after.run_context_plans@.last().context_plan_digest == *a.plan_digest,
        after.runs == before.runs,
    ensures
        attach_decision(after, a) is Reconciled,
{
    let last = after.run_context_plans@.len() - 1;
    lemma_find_last_is(after.run_context_plans@, plan_key(), a.run_id@, last);
    lemma_find_last(before.context_plans@, context_plan_key(), a.plan_digest@);
    if !has_key(before.context_plans@, context_plan_key(), a.plan_digest@) {
        let p = after.context_plans@.len() - 1;
        lemma_find_last_is(after.context_plans@, context_plan_key(), a.plan_digest@, p);
    }
}

/// Submission closes its own authority: after a Candidate is committed, no
/// further submission from the same Attempt, under any request id, can be
/// admitted — the Run has left Active.
pub proof fn law_one_candidate_per_attempt(
    before: Store,
    after: Store,
    sub: CandidateSubmission,
    outcome: SubmissionOutcome,
    next: CandidateSubmission,
)
    requires
        before.wf(),
        submission_decision(before, sub) is Admitted,
        submitted(before, after, sub, outcome),
        after.attempts == before.attempts,
        after.attempt_status == before.attempt_status,
        next.credential.attempt_id@ == sub.credential.attempt_id@,
    ensures
        !(submission_decision(after, next) is Admitted),
{
    let att = sub.credential.attempt_id@;
    let ri = derived_run(before, att);
    let a = before.attempts@[find_last(before.attempts@, crate::execution::attempt_key(), att)];
    lemma_find_last(before.run_status@, run_key(), a.run_id@);
    assert forall|j: int| ri < j < after.run_status@.len() implies (run_key())(#[trigger] after.run_status@[j])
        != a.run_id@ by {
        assert(after.run_status@[j] == before.run_status@[j]);
    }
    lemma_find_last_is(after.run_status@, run_key(), a.run_id@, ri);
    assert(derived_run(after, att) == ri);
}

/// A committed submission answers its own retry: the same credential,
/// request identity, hash and Candidate, presented to the state the
/// submission left, reconcile to the committed Candidate instead of
/// minting or refusing anything.
pub proof fn law_submission_retry_reconciles(
    before: Store,
    after: Store,
    sub: CandidateSubmission,
    outcome: SubmissionOutcome,
)
    requires
        before.wf(),
        after.wf(),
        submission_decision(before, sub) is Admitted,
        submitted(before, after, sub, outcome),
        (Store {
            candidates: before.candidates,
            candidate_outputs: before.candidate_outputs,
            run_status: before.run_status,
            tasks: before.tasks,
            agent_requests: before.agent_requests,
            events: before.events,
            next_sequence: before.next_sequence,
            ..after
        }) == before,
    ensures
        submission_decision(after, sub) is Reconciled,
        forall|o: SubmissionOutcome|
            reconciled_outcome(after, sub, o) ==> o.committed.candidate_digest@ == outcome.committed.candidate_digest@,
{
    let att = sub.credential.attempt_id@;
    let k = (att, sub.request_id@);
    let qi = find_last(before.agent_requests@, request_key(), k);
    lemma_find_last(before.agent_requests@, request_key(), k);
    if qi >= 0 {
        assert forall|j: int| qi < j < after.agent_requests@.len() implies (request_key())(
            #[trigger] after.agent_requests@[j],
        ) != k by {
            assert(after.agent_requests@[j] == before.agent_requests@[j]);
        }
        lemma_find_last_is(after.agent_requests@, request_key(), k, qi);
    } else {
        lemma_find_last_is(after.agent_requests@, request_key(), k, after.agent_requests@.len() - 1);
    }
    let hex = bytes_hex(sub.candidate.digest@);
    let a = before.attempts@[find_last(before.attempts@, attempt_key(), att)];
    let ri = derived_run(before, att);
    lemma_find_last(before.run_status@, run_key(), a.run_id@);
    let last = after.candidates@.len() - 1;
    assert(bytes_hex(after.candidates@[last].digest@) == hex);
    assert(after.candidates@[last].run_id@ == sub.candidate.run_id@);
    let c = reconcile_index(after, hex, sub.candidate.run_id@);
    assert(0 <= c < after.candidates@.len());
    assert(after.candidates@[c].run_id@ == after.candidates@[last].run_id@);
    assert(c == last);
    assert(crate::agent_control::authorized(after, sub.credential));
    let q = after.agent_requests@[find_last(after.agent_requests@, request_key(), k)];
    assert(q.request_hash@ == sub.request_hash@);
    assert(q.state@ == "SUCCEEDED"@);
    reveal_strlit("STARTED");
    reveal_strlit("SUCCEEDED");
    assert("SUCCEEDED"@ != "STARTED"@) by {
        assert("SUCCEEDED"@.len() != "STARTED"@.len());
    }
    assert(q.result_ref matches Some(r) && r@ == hex);
}

/// Capturing identical Workspace state converges: after a seal is
/// published, the same state's checkpoint exists, and any later publication
/// of it binds the same checkpoint id whatever fresh id it draws.
pub proof fn law_seal_converges(
    before: Store,
    after: Store,
    seal: SealedChangeset,
    fresh: Seq<char>,
    value: SealOutcome,
    later_fresh: Seq<char>,
)
    requires
        before.wf(),
        seal_decision(before, seal, fresh) is Admitted,
        seal_published(before, after, seal, fresh, value),
    ensures
        bound_revision_id(after, seal, later_fresh) == value.workspace_revision_id@,
{
    let k = (seal.workspace_id@, seal.revision_state_digest@);
    lemma_find_last(before.workspace_revisions@, checkpoint_key(), k);
    if find_last(before.workspace_revisions@, checkpoint_key(), k) < 0 {
        let last = after.workspace_revisions@.len() - 1;
        lemma_find_last_is(after.workspace_revisions@, checkpoint_key(), k, last);
    }
}

/// A retried seal converges on the content it published: after a seal is
/// published, publishing the same capture again, under another command and
/// whatever fresh id it draws, is admitted, reuses the Artifact and binds
/// the same checkpoint, and adds no checkpoint or Artifact row.
pub proof fn law_seal_retry_reuses_content(
    before: Store,
    after: Store,
    seal: SealedChangeset,
    fresh: Seq<char>,
    value: SealOutcome,
    later_fresh: Seq<char>,
)
    requires
        before.wf(),
        seal_decision(before, seal, fresh) is Admitted,
        seal_published(before, after, seal, fresh, value),
        (Store {
            blobs: before.blobs,
            workspace_revisions: before.workspace_revisions,
            artifacts: before.artifacts,
            artifact_members: before.artifact_members,
            production_records: before.production_records,
            events: before.events,
            next_sequence: before.next_sequence,
            commands: before.commands,
            ..after
        }) == before,
    ensures
        seal_decision(after, seal, later_fresh) is Admitted,
        forall|again: Store, v: SealOutcome|
            seal_published(after, again, seal, later_fresh, v) ==> {
                &&& v.artifact_reused
                &&& v.workspace_revision_id@ == value.workspace_revision_id@
                &&& again.artifacts == after.artifacts
                &&& again.workspace_revisions == after.workspace_revisions
            },
{
    // Everything the authority and the fence read is untouched.
    assert(after.workspaces == before.workspaces);
    assert(after.run_status == before.run_status);
    assert(after.tasks == before.tasks);
    assert(after.runs == before.runs);
    assert(after.context_source_snapshots == before.context_source_snapshots);
    assert(after.task_specs == before.task_specs);
    assert(after.attempts == before.attempts);
    assert(seal_authority_holds(after, seal) == seal_authority_holds(before, seal));
    // Every member is now stored at its size, so merging again is the identity.
    lemma_merge_stores(before.blobs@, seal.members@);
    lemma_merge_sizes(before.blobs@, seal.members@);
    lemma_merge_stored_is_identity(after.blobs@, seal.members@);
    // The checkpoint exists.
    let ck = (seal.workspace_id@, seal.revision_state_digest@);
    lemma_find_last(before.workspace_revisions@, checkpoint_key(), ck);
    if find_last(before.workspace_revisions@, checkpoint_key(), ck) < 0 {
        lemma_find_last_is(after.workspace_revisions@, checkpoint_key(), ck, after.workspace_revisions@.len() - 1);
    }
    law_seal_converges(before, after, seal, fresh, value, later_fresh);
    // The Artifact exists with the sealed content.
    lemma_find_last(before.artifacts@, artifact_key(), seal.artifact_digest@);
    if find_last(before.artifacts@, artifact_key(), seal.artifact_digest@) < 0 {
        lemma_find_last_is(after.artifacts@, artifact_key(), seal.artifact_digest@, after.artifacts@.len() - 1);
    }
    // The production provenance, if any, already names this publication.
    let pk = (seal.authority.run_id@, seal.output_slot@);
    lemma_find_last(before.production_records@, production_key(), pk);
    if seal.producer is Some && find_last(before.production_records@, production_key(), pk) < 0 {
        lemma_find_last_is(after.production_records@, production_key(), pk, after.production_records@.len() - 1);
    }
}

/// A submission whose outcome is on record reconciles, in any later state:
/// wherever the request row of the credential's Attempt and request id
/// holds the same hash, succeeded, and names a stored Candidate of the
/// submitted Run with the submitted content, and the session still
/// authenticates, the same submission is answered with that Candidate.
pub proof fn law_recorded_submission_reconciles(s: Store, sub: CandidateSubmission, c: int)
    requires
        s.wf(),
        crate::agent_control::authorized(s, sub.credential),
        find_last(s.agent_requests@, request_key(), (sub.credential.attempt_id@, sub.request_id@)) >= 0,
        ({
            let q = s.agent_requests@[find_last(
                s.agent_requests@,
                request_key(),
                (sub.credential.attempt_id@, sub.request_id@),
            )];
            &&& q.request_hash@ == sub.request_hash@
            &&& q.state@ == "SUCCEEDED"@
            &&& q.result_ref matches Some(r) && r@ == bytes_hex(sub.candidate.digest@)
        }),
        0 <= c < s.candidates@.len(),
        s.candidates@[c].digest == sub.candidate.digest,
        s.candidates@[c].run_id@ == sub.candidate.run_id@,
        s.candidates@[c].canonical_json@ == sub.candidate.canonical_json@,
    ensures
        submission_decision(s, sub) is Reconciled,
        forall|o: SubmissionOutcome|
            reconciled_outcome(s, sub, o) ==> o.committed.candidate_digest@ == bytes_hex(sub.candidate.digest@),
{
    let hex = bytes_hex(sub.candidate.digest@);
    let w = reconcile_index(s, hex, sub.candidate.run_id@);
    assert(bytes_hex(s.candidates@[c].digest@) == hex);
    assert(0 <= w < s.candidates@.len());
    assert(s.candidates@[w].run_id@ == s.candidates@[c].run_id@);
    assert(w == c);
    reveal_strlit("STARTED");
    reveal_strlit("SUCCEEDED");
    assert("SUCCEEDED"@ != "STARTED"@) by {
        assert("SUCCEEDED"@.len() != "STARTED"@.len());
    }
}

/// A capture of state whose checkpoint and Artifact are on record
/// converges on them, in any later state and whatever else the seal
/// carries: an admitted publication of it reuses the Artifact, binds the
/// recorded checkpoint whatever fresh id it drew, and adds no checkpoint or
/// Artifact row.
pub proof fn law_recorded_capture_converges(
    s: Store,
    seal: SealedChangeset,
    fresh: Seq<char>,
    after: Store,
    value: SealOutcome,
)
    requires
        find_last(s.workspace_revisions@, checkpoint_key(), (seal.workspace_id@, seal.revision_state_digest@)) >= 0,
        has_key(s.artifacts@, artifact_key(), seal.artifact_digest@),
        seal_decision(s, seal, fresh) is Admitted,
        seal_published(s, after, seal, fresh, value),
    ensures
        value.artifact_reused,
        value.workspace_revision_id@ == s.workspace_revisions@[find_last(
            s.workspace_revisions@,
            checkpoint_key(),
            (seal.workspace_id@, seal.revision_state_digest@),
        )].id@,
        after.artifacts == s.artifacts,
        after.workspace_revisions == s.workspace_revisions,
{
    lemma_find_last(s.artifacts@, artifact_key(), seal.artifact_digest@);
}

/// A committed Run intent occupies the single execution slot, so no second
/// Run intent can be admitted until it is released.
pub proof fn law_run_intent_occupies_the_slot(
    before: Store,
    after: Store,
    intent: RunIntent,
    value: RunIntentCommit,
    next: RunIntent,
)
    requires
        run_intent_applied(before, after, intent, value),
    ensures
        slot_held(after.run_status@),
        !(run_intent_decision(after, next) is Admitted),
{
    let last = after.run_status@.len() - 1;
    assert(after.run_status@[last].active_slot);
}

/// Of two Run intents built from one scheduling snapshot, at most one
/// commits: once the first is applied, the scheduler revision both carried
/// is stale, and T3 refuses the second on the scheduler fence, naming the
/// revision the first left behind.
pub proof fn law_one_intent_per_scheduler_revision(
    before: Store,
    after: Store,
    first: RunIntent,
    value: RunIntentCommit,
    second: RunIntent,
)
    requires
        run_intent_decision(before, first) is Admitted,
        run_intent_applied(before, after, first, value),
        second.expected_scheduler_revision == first.expected_scheduler_revision,
    ensures
        run_intent_decision(after, second) == RunIntentDecision::SchedulerMoved(
            (first.expected_scheduler_revision.value + 1) as i64,
        ),
{
}

/// A cancellation accepted once is a fixed point: asked again of the state
/// it left, it finds the Goal already targeting `Cancelled`, fences no Task
/// and has no revision to advance, so it changes no Goal or Task and burns
/// no revision.
pub proof fn law_second_cancellation_changes_nothing(
    before: Store,
    after: Store,
    goal_id: Seq<char>,
    value: Cancellation,
)
    requires
        before.wf(),
        cancel_decision(before, goal_id) is Fence || cancel_decision(before, goal_id) is AlreadyTargeted,
        goal_cancelled(before, after, goal_id, value),
    ensures
        cancel_decision(after, goal_id) is AlreadyTargeted,
        fence_count(after.task_targets@, after.tasks@, goal_id) == 0,
        !cancel_exhausted(after, goal_id),
{
    lemma_cancelled_goal_stands(before, after, goal_id, value);
    assert forall|i: int| 0 <= i < after.tasks@.len() implies !fenced_by(
        after.task_targets@,
        #[trigger] after.tasks@[i],
        goal_id,
    ) by {
        let t = before.tasks@[i];
        let k = t.id@;
        assert(task_target_of(after.task_targets@, k) == if fence_touches(before, goal_id, k) {
            Some((TaskPhase::Cancelled, goal_cancelled_reason()))
        } else {
            task_target_of(before.task_targets@, k)
        });
        if fenced_by(before.task_targets@, t, goal_id) {
            assert(fence_touches(before, goal_id, k));
        }
    }
    lemma_fence_count_zero(after.task_targets@, after.tasks@, goal_id);
}

/// Where an accepted cancellation leaves its Goal: at the same index,
/// `Finalizing`, targeting `Cancelled`.
proof fn lemma_cancelled_goal_stands(before: Store, after: Store, goal_id: Seq<char>, value: Cancellation)
    requires
        before.wf(),
        cancel_decision(before, goal_id) is Fence || cancel_decision(before, goal_id) is AlreadyTargeted,
        goal_cancelled(before, after, goal_id, value),
    ensures
        find_last(after.goals@, goal_key(), goal_id) == find_last(before.goals@, goal_key(), goal_id),
        find_last(after.goals@, goal_key(), goal_id) >= 0,
        after.goals@[find_last(after.goals@, goal_key(), goal_id)].phase is Finalizing,
        goal_target_of(after.goal_targets@, goal_id) == Some(GoalPhase::Cancelled),
{
    let gi = find_last(before.goals@, goal_key(), goal_id);
    lemma_find_last(before.goals@, goal_key(), goal_id);
    if cancel_decision(before, goal_id) is Fence {
        lemma_find_last_update(before.goals@, goal_key(), gi, value.goal, goal_id);
    }
    assert(goal_target_of(after.goal_targets@, goal_id) == Some(GoalPhase::Cancelled));
}

/// A cancelled Goal admits no new Run: once a cancellation is accepted, T3
/// refuses every Run intent for the Goal, whatever else it names.
pub proof fn law_cancelled_goal_admits_no_run(
    before: Store,
    after: Store,
    goal_id: Seq<char>,
    value: Cancellation,
    intent: RunIntent,
)
    requires
        before.wf(),
        cancel_decision(before, goal_id) is Fence || cancel_decision(before, goal_id) is AlreadyTargeted,
        goal_cancelled(before, after, goal_id, value),
        intent.goal_id@ == goal_id,
    ensures
        !(run_intent_decision(after, intent) is Admitted),
{
    lemma_cancelled_goal_stands(before, after, goal_id, value);
    let g = after.goals@[find_last(after.goals@, goal_key(), goal_id)];
    assert(!goal_dispatchable(g.phase));
}

/// Cancellation terminalizes nothing: the Goal ends `Finalizing`, and every
/// Task is terminal afterwards exactly when it was before.
pub proof fn law_cancellation_terminalizes_nothing(
    before: Store,
    after: Store,
    goal_id: Seq<char>,
    value: Cancellation,
)
    requires
        before.wf(),
        cancel_decision(before, goal_id) is Fence || cancel_decision(before, goal_id) is AlreadyTargeted,
        goal_cancelled(before, after, goal_id, value),
    ensures
        !after.goals@[find_last(after.goals@, goal_key(), goal_id)].phase.spec_is_terminal(),
        forall|i: int|
            0 <= i < after.tasks@.len() ==> (#[trigger] after.tasks@[i]).phase.spec_is_terminal()
                == before.tasks@[i].phase.spec_is_terminal(),
{
    lemma_cancelled_goal_stands(before, after, goal_id, value);
    assert forall|i: int| 0 <= i < after.tasks@.len() implies (#[trigger] after.tasks@[i]).phase.spec_is_terminal()
        == before.tasks@[i].phase.spec_is_terminal() by {
        if fenced_by(before.task_targets@, before.tasks@[i], goal_id) {
        }
    }
}

/// Terminal history never reopens: cancelling a terminal Goal is refused,
/// and the refusal writes nothing.
pub proof fn law_terminal_goal_refuses_cancellation(s: Store, goal_id: Seq<char>)
    requires
        find_last(s.goals@, goal_key(), goal_id) >= 0,
        s.goals@[find_last(s.goals@, goal_key(), goal_id)].phase.spec_is_terminal(),
    ensures
        cancel_decision(s, goal_id) is NotCancellable,
{
}

/// A cancelled Goal is off the schedule: once a cancellation is accepted,
/// no scheduling snapshot of the resulting state, at any instant, offers a
/// candidate of the Goal.
pub proof fn law_cancelled_goal_has_no_candidates(
    before: Store,
    after: Store,
    goal_id: Seq<char>,
    value: Cancellation,
    now: i64,
)
    requires
        before.wf(),
        cancel_decision(before, goal_id) is Fence || cancel_decision(before, goal_id) is AlreadyTargeted,
        goal_cancelled(before, after, goal_id, value),
    ensures
        forall|i: int|
            0 <= i < sorted_by_text(dispatch_candidates(after, after.tasks@, now)).len() ==> (#[trigger] sorted_by_text(
                dispatch_candidates(after, after.tasks@, now),
            )[i]).goal_id@ != goal_id,
{
    lemma_cancelled_goal_stands(before, after, goal_id, value);
    let items = dispatch_candidates(after, after.tasks@, now);
    lemma_sorted_from_items(items);
    lemma_candidate_source(after, after.tasks@, now);
    assert forall|i: int| 0 <= i < sorted_by_text(items).len() implies (#[trigger] sorted_by_text(items)[i]).goal_id@
        != goal_id by {
        let k = choose|k: int| 0 <= k < items.len() && items[k] == #[trigger] sorted_by_text(items)[i];
        assert(sourced_in(after, after.tasks@, now, items[k]));
        let j = choose|j: int|
            0 <= j < after.tasks@.len() && task_dispatchable_at(after, #[trigger] after.tasks@[j], now) && sourced_from(
                after,
                after.tasks@[j],
                items[k],
            );
        let w = choose|w: WorkspaceRow|
            workspace_serves(w, after.tasks@[j].id@) && items[k] == #[trigger] candidate_of(after, after.tasks@[j], w);
        assert(items[k].goal_id == after.tasks@[j].goal_id);
    }
}

/// Watching from a snapshot's cursor neither skips nor repeats an Event:
/// once a command commits, the Events after the head the earlier state
/// reported are exactly the Events that command appended.
pub proof fn law_watch_from_head_sees_exactly_new_events(
    before: Store,
    after: Store,
    c: Command,
    cursor: JournalCursor,
)
    requires
        before.wf(),
        after.wf(),
        command_recorded(before, after, c, cursor),
    ensures
        events_after_spec(after.events@, (before.next_sequence - 1) as i64, -1i64) == after.events@.subrange(
            before.events@.len() as int,
            after.events@.len() as int,
        ),
        events_after_spec(after.events@, (before.next_sequence - 1) as i64, -1i64).len() == 1,
{
    let seq = (before.next_sequence - 1) as i64;
    let n = before.events@.len() as int;
    let events = after.events@;
    lemma_events_through(events, seq);
    let k = events_through(events, seq);
    assert forall|i: int| 0 <= i < n implies events[i].sequence <= seq by {
        assert(events[i] == before.events@[i]);
    }
    assert(events[n].sequence == before.next_sequence);
    if k < n {
        assert(events[k].sequence <= seq);
    }
    if k > n {
        assert(events[n].sequence <= seq);
    }
    assert(k == n);
}

/// Cancellation voids seal authority: once a cancellation is accepted, no
/// Task it fenced can have a sealed changeset published any more, whatever
/// Run, Workspace or slot the seal claims, because the Task has left
/// `Active`.
pub proof fn law_cancellation_voids_seal_authority(
    before: Store,
    after: Store,
    goal_id: Seq<char>,
    value: Cancellation,
    fenced: int,
    seal: SealedChangeset,
)
    requires
        before.wf(),
        cancel_decision(before, goal_id) is Fence || cancel_decision(before, goal_id) is AlreadyTargeted,
        goal_cancelled(before, after, goal_id, value),
        0 <= fenced < before.tasks@.len(),
        fenced_by(before.task_targets@, before.tasks@[fenced], goal_id),
        seal.task_id@ == before.tasks@[fenced].id@,
    ensures
        !seal_authority_holds(after, seal),
        !(seal_decision(after, seal, seal.workspace_id@) is Admitted),
{
    assert forall|j: int| fenced < j < after.tasks@.len() implies task_key()(#[trigger] after.tasks@[j]) != seal.task_id@ by {
        assert(after.tasks@[j].id == before.tasks@[j].id);
    }
    lemma_find_last_is(after.tasks@, task_key(), seal.task_id@, fenced);
    assert(after.tasks@[fenced] == fenced_task(before.tasks@[fenced]));
}

/// A named Sandbox transition starts only from its source phase: whatever
/// it executes found the Sandbox at the expected revision in that phase and
/// leaves it in the target phase one revision on, and a Sandbox at the
/// expected revision in any other phase is refused as an invariant
/// violation with nothing written.
pub proof fn law_sandbox_transition_starts_from_its_source(
    before: Store,
    after: Store,
    c: Command,
    id: Seq<char>,
    expected: i64,
    guard_fails: bool,
    from: SandboxPhase,
    to: SandboxPhase,
    presence: SandboxPresence,
    r: Result<Committed<SandboxRecord>, StoreError>,
)
    requires
        transition_contract(before, after, c, id, expected, guard_fails, Some(from), Some(to), presence, r),
    ensures
        starts_only_from(before, after, c, id, expected, from, to, r),
{
    let si = find_last(before.sandboxes@, sandbox_id_key(), id);
    lemma_find_last(before.sandboxes@, sandbox_id_key(), id);
    if r matches Ok(Committed::Executed { value, .. }) {
        assert(class_of(before, c) is Fresh);
    }
}

/// T3 never runs on a Workspace that does not serve the intent: an intent
/// that executes named a Workspace that exists, belongs to the intent's
/// Task, is Ready and Present and is at the expected revision; a fresh
/// intent naming any other is refused with nothing written.
pub proof fn law_admitted_intent_holds_its_workspace(
    before: Store,
    after: Store,
    c: Command,
    i: RunIntent,
    r: Result<Committed<RunIntentCommit>, StoreError>,
)
    requires
        crate::dispatch::run_intent_contract(before, after, c, i, r),
    ensures
        r matches Ok(Committed::Executed { .. }) ==> crate::dispatch::intent_workspace_fits(before, i),
        class_of(before, c) is Fresh && !crate::dispatch::intent_workspace_fits(before, i) ==> (r is Err && after == before),
{
}

/// New lineages start only under a live Run: an Attempt creation that
/// executes found the Run's status `Active`, and a fresh creation for a Run
/// that is absent, finalizing or terminal is refused as not launch-ready
/// with nothing written.
pub proof fn law_attempts_start_only_under_an_active_run(
    before: Store,
    after: Store,
    c: Command,
    creation: crate::execution::AttemptCreation,
    r: Result<Committed<crate::execution::AttemptCreated>, StoreError>,
)
    requires
        crate::execution::attempt_creation_contract(before, after, c, creation, r),
    ensures
        r matches Ok(Committed::Executed { .. }) ==> crate::execution::creation_run_active(before, creation),
        class_of(before, c) is Fresh && !crate::execution::creation_run_active(before, creation) ==> (r matches Err(
            StoreError::AttemptNotLaunchReady { run_id, .. },
        ) && run_id@ == creation.run_id@ && after == before),
{
}

/// A conclusion records exactly the terminal phase it names: once a Run is
/// concluded, its phase is the one whose stored spelling is the conclusion
/// given, that phase is also its durable target, and it no longer holds the
/// execution slot.
pub proof fn law_a_conclusion_records_the_phase_it_names(
    before: Store,
    after: Store,
    run_id: &str,
    terminal_target: &str,
    expected: crate::revision::Revision,
    r: Result<(), StoreError>,
)
    requires
        crate::execution::conclusion_contract(before, after, run_id, terminal_target, expected, r),
    ensures
        r is Ok ==> ({
            let ri = find_last(before.run_status@, run_key(), run_id@);
            &&& 0 <= ri < after.run_status@.len()
            &&& after.run_status@[ri].phase.spec_as_str()@ == terminal_target@
            &&& after.run_status@[ri].terminal_target == Some(after.run_status@[ri].phase)
            &&& !after.run_status@[ri].active_slot
        }),
{
    lemma_find_last(before.run_status@, run_key(), run_id@);
    reveal_strlit("Failed");
    reveal_strlit("Cancelled");
}

/// T3 accepts a Run for a Task whose Goal is `Planning`, `Active` or
/// `Evaluating`, and for no other Goal phase.
pub proof fn law_t3_goal_phases(p: GoalPhase)
    ensures
        goal_dispatchable(p) <==> (p is Planning || p is Active || p is Evaluating),
{
}

/// The scheduling snapshot offers a Task whatever phase T3 accepts its Goal
/// in: two states that differ only in the phase of one Goal, each of them
/// `Planning`, `Active` or `Evaluating`, make exactly the same Tasks
/// dispatchable, at every instant. So a Ready Task of an `Evaluating` Goal
/// is offered exactly when it would be were the Goal `Active`.
pub proof fn law_snapshot_accepts_every_goal_phase_t3_accepts(s1: Store, s2: Store, gi: int, now: i64)
    requires
        (Store { goals: s1.goals, ..s2 }) == s1,
        s1.goals@.len() == s2.goals@.len(),
        0 <= gi < s1.goals@.len(),
        forall|j: int| 0 <= j < s1.goals@.len() && j != gi ==> s1.goals@[j] == s2.goals@[j],
        (GoalRecord { phase: s1.goals@[gi].phase, ..s2.goals@[gi] }) == s1.goals@[gi],
        s1.goals@[gi].phase is Planning || s1.goals@[gi].phase is Active || s1.goals@[gi].phase is Evaluating,
        s2.goals@[gi].phase is Planning || s2.goals@[gi].phase is Active || s2.goals@[gi].phase is Evaluating,
    ensures
        forall|t: crate::planning::TaskRecord| #[trigger] task_dispatchable_at(s1, t, now) == task_dispatchable_at(s2, t, now),
{
    assert forall|t: crate::planning::TaskRecord| #[trigger] task_dispatchable_at(s1, t, now) == task_dispatchable_at(s2, t, now) by {
        let k = t.goal_id@;
        let i1 = find_last(s1.goals@, goal_key(), k);
        lemma_find_last(s1.goals@, goal_key(), k);
        lemma_find_last(s2.goals@, goal_key(), k);
        assert forall|j: int| 0 <= j < s1.goals@.len() implies (goal_key())(#[trigger] s2.goals@[j]) == (goal_key())(
            s1.goals@[j],
        ) by {
            if j == gi {
                assert(s2.goals@[j].id == s1.goals@[j].id);
            }
        }
        if i1 >= 0 {
            lemma_find_last_is(s2.goals@, goal_key(), k, i1);
        } else if has_key(s2.goals@, goal_key(), k) {
            let j = choose|j: int| 0 <= j < s2.goals@.len() && (goal_key())(#[trigger] s2.goals@[j]) == k;
            assert((goal_key())(s1.goals@[j]) == k);
        }
        let i = find_last(s1.goals@, goal_key(), k);
        if i >= 0 && i != gi {
            assert(s1.goals@[i] == s2.goals@[i]);
        }
    }
}

/// Every Ready Task the snapshot has no reason to hold back is offered: its
/// Goal and graph exist, the Goal is `Planning`, `Active` or `Evaluating`,
/// the Task is eligible and out of backoff, no live Run is responsible for
/// it, and its prerequisites at the current graph revision have succeeded.
pub proof fn law_ready_tasks_of_live_goals_are_offered(s: Store, t: crate::planning::TaskRecord, now: i64)
    requires
        t.phase is Ready,
        find_last(s.goals@, goal_key(), t.goal_id@) >= 0,
        ({
            let p = s.goals@[find_last(s.goals@, goal_key(), t.goal_id@)].phase;
            p is Planning || p is Active || p is Evaluating
        }),
        find_last(s.task_graphs@, crate::planning::graph_key(), t.goal_id@) >= 0,
        find_last(s.task_scheduling@, crate::scheduling::task_scheduling_key(), t.id@) >= 0,
        ({
            let ts = s.task_scheduling@[find_last(s.task_scheduling@, crate::scheduling::task_scheduling_key(), t.id@)];
            ts.eligible_since is Some && (ts.next_attempt_at matches Some(at) ==> at <= now)
        }),
        forall|i: int| 0 <= i < s.run_status@.len() && (#[trigger] s.run_status@[i]).task_id@ == t.id@ ==> !(
        s.run_status@[i].phase is Active || s.run_status@[i].phase is Finalizing),
        crate::planning::prerequisites_satisfied_spec(
            s.tasks@,
            s.task_graph_edges@,
            t.id@,
            s.task_graphs@[find_last(s.task_graphs@, crate::planning::graph_key(), t.goal_id@)].revision.value as int,
        ),
    ensures
        task_dispatchable_at(s, t, now),
{
}

} // verus!
