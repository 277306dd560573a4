//! Durable ContextPlan state: the content-addressed plan family, the
//! one-time Run attachment transaction (T3a), and the reads deterministic
//! preparation reconstructs its sources through.
//!
//! An attachment names its own Run's frozen source snapshot, the plan it
//! attaches was built from that same snapshot, a plan digest never comes to
//! mean different bytes, and a Run is attached at most once. The same
//! `(run, source, plan)` reconciles; anything else already attached fails
//! closed.

use vstd::prelude::*;

use crate::command::{class_of, command_recorded, gate_outcome, Command, CommandClass, Committed, Gate};
use crate::configuration::{component_stored, find_component, revision_at, ConfigurationComponent};
use crate::error::StoreError;
use crate::execution::{plan_key, RunContextPlanRecord};
use crate::planning::{goal_revision_key, GoalRevisionRow};
use crate::scheduling::{
    binding_key, find_binding, find_snapshot, find_workspace, run_record_key, snapshot_key, workspace_key, RunRecord,
};
use crate::store::Store;
use crate::table::{find_last, has_key, lemma_find_last, lemma_find_last_is, lemma_unique_push};
use crate::text::{bytes_eq, bytes_hex, digest_hex, str_eq};

verus! {

/// One immutable, content-addressed ContextPlan.
#[derive(Debug, Clone, PartialEq, Eq)]
pub struct ContextPlanRow {
    pub digest: [u8; 32],
    pub source_snapshot_digest: [u8; 32],
    pub builder_version: String,
    pub canonical_json: String,
}

/// The immutable Goal revision content preparation verifies.
#[derive(Debug, Clone, PartialEq, Eq)]
pub struct GoalRevisionContent {
    pub goal_id: String,
    pub revision: i64,
    pub content_digest: [u8; 32],
    pub canonical_json: String,
}

/// One authoritative request to attach an already-built plan to its Run.
/// The plan travels with its canonical bytes and the digest those bytes
/// hash to, so the claim `bytes -> digest` is checked before anything
/// durable accepts it.
#[derive(Debug, Clone, Copy)]
pub struct ContextPlanAttachment<'a> {
    pub run_id: &'a str,
    pub source_snapshot_digest: &'a [u8; 32],
    pub plan_digest: &'a [u8; 32],
    pub builder_version: &'a str,
    pub plan_canonical_json: &'a str,
    /// The content hash of `plan_canonical_json`'s bytes.
    pub plan_bytes_digest: &'a [u8; 32],
}

/// What one successful attachment established or reconciled.
#[derive(Debug, Clone, PartialEq, Eq)]
pub struct AttachedContextPlan {
    pub run_id: String,
    pub context_plan_digest: [u8; 32],
}

pub open spec fn context_plan_key() -> spec_fn(ContextPlanRow) -> Seq<u8> {
    |r: ContextPlanRow| r.digest@
}

impl Store {
    /// The context family's invariant: plans are keyed by digest.
    pub open spec fn context_wf(&self) -> bool {
        crate::table::unique_by(self.context_plans@, context_plan_key())
    }
}

/// Why a T3a attachment refuses, or what it does.
pub enum AttachDecision {
    RunNotFound,
    SourceMismatch,
    BytesMismatch,
    StoredContentDiffers,
    StoredSourceDiffers,
    OtherPlanAttached,
    Reconciled,
    Attached,
}

/// The decision attaching `a` reaches on `s`.
pub open spec fn attach_decision(s: Store, a: ContextPlanAttachment) -> AttachDecision {
    let ri = find_last(s.runs@, run_record_key(), a.run_id@);
    let pi = find_last(s.context_plans@, context_plan_key(), a.plan_digest@);
    let ai = find_last(s.run_context_plans@, plan_key(), a.run_id@);
    if ri < 0 {
        AttachDecision::RunNotFound
    } else if s.runs@[ri].context_source_snapshot_digest@ != a.source_snapshot_digest@ {
        AttachDecision::SourceMismatch
    } else if a.plan_bytes_digest@ != a.plan_digest@ {
        AttachDecision::BytesMismatch
    } else if pi >= 0 && s.context_plans@[pi].canonical_json@ != a.plan_canonical_json@ {
        AttachDecision::StoredContentDiffers
    } else if pi >= 0 && s.context_plans@[pi].source_snapshot_digest@ != a.source_snapshot_digest@ {
        AttachDecision::StoredSourceDiffers
    } else if ai >= 0 && s.run_context_plans@[ai].context_plan_digest@ != a.plan_digest@ {
        AttachDecision::OtherPlanAttached
    } else if ai >= 0 {
        AttachDecision::Reconciled
    } else {
        AttachDecision::Attached
    }
}

/// The plan table after T3a's insert-or-verify of the plan row.
pub open spec fn plans_after(before: Seq<ContextPlanRow>, after: Seq<ContextPlanRow>, a: ContextPlanAttachment) -> bool {
    if has_key(before, context_plan_key(), a.plan_digest@) {
        after == before
    } else {
        &&& after.len() == before.len() + 1
        &&& after.drop_last() == before
        &&& after.last().digest == *a.plan_digest
        &&& after.last().source_snapshot_digest == *a.source_snapshot_digest
        &&& after.last().builder_version@ == a.builder_version@
        &&& after.last().canonical_json@ == a.plan_canonical_json@
    }
}

pub(crate) fn find_run_record(rows: &Vec<RunRecord>, id: &str) -> (r: Option<usize>)
    ensures
        match r {
            Some(i) => i < rows@.len() && i == find_last(rows@, run_record_key(), id@),
            None => find_last(rows@, run_record_key(), id@) == -1,
        },
{
    let mut i: usize = rows.len();
    while i > 0
        invariant
            i <= rows@.len(),
            forall|j: int| i <= j < rows@.len() ==> (run_record_key())(#[trigger] rows@[j]) != id@,
        decreases i,
    {
        i = i - 1;
        if str_eq(rows[i].id.as_str(), id) {
            proof {
                lemma_find_last_is(rows@, run_record_key(), id@, i as int);
            }
            return Some(i);
        }
    }
    proof {
        lemma_find_last(rows@, run_record_key(), id@);
    }
    None
}

fn find_context_plan(rows: &Vec<ContextPlanRow>, d: &[u8; 32]) -> (r: Option<usize>)
    ensures
        match r {
            Some(i) => i < rows@.len() && i == find_last(rows@, context_plan_key(), d@),
            None => find_last(rows@, context_plan_key(), d@) == -1,
        },
{
    let mut i: usize = rows.len();
    while i > 0
        invariant
            i <= rows@.len(),
            forall|j: int| i <= j < rows@.len() ==> (context_plan_key())(#[trigger] rows@[j]) != d@,
        decreases i,
    {
        i = i - 1;
        if bytes_eq(rows[i].digest.as_slice(), d.as_slice()) {
            proof {
                lemma_find_last_is(rows@, context_plan_key(), d@, i as int);
            }
            return Some(i);
        }
    }
    proof {
        lemma_find_last(rows@, context_plan_key(), d@);
    }
    None
}

pub(crate) fn find_attachment(rows: &Vec<RunContextPlanRecord>, run_id: &str) -> (r: Option<usize>)
    ensures
        match r {
            Some(i) => i < rows@.len() && i == find_last(rows@, plan_key(), run_id@),
            None => find_last(rows@, plan_key(), run_id@) == -1,
        },
{
    let mut i: usize = rows.len();
    while i > 0
        invariant
            i <= rows@.len(),
            forall|j: int| i <= j < rows@.len() ==> (plan_key())(#[trigger] rows@[j]) != run_id@,
        decreases i,
    {
        i = i - 1;
        if str_eq(rows[i].run_id.as_str(), run_id) {
            proof {
                lemma_find_last_is(rows@, plan_key(), run_id@, i as int);
            }
            return Some(i);
        }
    }
    proof {
        lemma_find_last(rows@, plan_key(), run_id@);
    }
    None
}

impl Store {
    /// Commits one T3a ContextPlan attachment under the command kernel: the
    /// one-time boundary between deterministic preparation and durable Run
    /// readiness.
    ///
    /// The Run is re-read and must have frozen exactly the claimed source
    /// snapshot; the plan's bytes must hash to its digest; the plan row is
    /// inserted, or an existing one verified to hold the same bytes and
    /// source; and the Run is attached exactly once. The same
    /// `(run, source, plan)` reconciles; on every failure nothing is written.
    pub fn attach_run_context_plan(&mut self, command: &Command, attachment: &ContextPlanAttachment) -> (r: Result<
        Committed<AttachedContextPlan>,
        StoreError,
    >)
        requires
            old(self).wf(),
        ensures
            final(self).wf(),
            gate_outcome(*old(self), *final(self), *command, r),
            class_of(*old(self), *command) is Fresh ==> {
                let ri = find_last(old(self).runs@, run_record_key(), attachment.run_id@);
                let ai = find_last(old(self).run_context_plans@, plan_key(), attachment.run_id@);
                match attach_decision(*old(self), *attachment) {
                    AttachDecision::RunNotFound => (r matches Err(StoreError::RunNotFound { run_id })
                        && run_id@ == attachment.run_id@ && *final(self) == *old(self)),
                    AttachDecision::SourceMismatch => (r matches Err(StoreError::ContextSourceMismatch { run_id, frozen, proposed })
                        && run_id@ == attachment.run_id@
                        && frozen@ == bytes_hex(old(self).runs@[ri].context_source_snapshot_digest@)
                        && proposed@ == bytes_hex(attachment.source_snapshot_digest@) && *final(self) == *old(self)),
                    AttachDecision::BytesMismatch => (r matches Err(StoreError::ContentIdentityConflict { table, id, .. })
                        && table@ == "context_plans"@ && id@ == bytes_hex(attachment.plan_digest@)
                        && *final(self) == *old(self)),
                    AttachDecision::StoredContentDiffers => (r matches Err(StoreError::ContentIdentityConflict { table, id, .. })
                        && table@ == "context_plans"@ && id@ == bytes_hex(attachment.plan_digest@)
                        && *final(self) == *old(self)),
                    AttachDecision::StoredSourceDiffers => r matches Err(StoreError::InvariantViolated(_))
                        && *final(self) == *old(self),
                    AttachDecision::OtherPlanAttached => (r matches Err(StoreError::RunContextPlanConflict { run_id, attached_plan, proposed_plan })
                        && run_id@ == attachment.run_id@
                        && attached_plan@ == bytes_hex(old(self).run_context_plans@[ai].context_plan_digest@)
                        && proposed_plan@ == bytes_hex(attachment.plan_digest@) && *final(self) == *old(self)),
                    AttachDecision::Reconciled => {
                        &&& r matches Ok(Committed::Executed { value, cursor })
                        &&& value.run_id@ == attachment.run_id@ && value.context_plan_digest == *attachment.plan_digest
                        &&& plans_after(old(self).context_plans@, final(self).context_plans@, *attachment)
                        &&& final(self).run_context_plans == old(self).run_context_plans
                        &&& command_recorded(*old(self), *final(self), *command, cursor)
                        &&& (Store {
                            context_plans: old(self).context_plans,
                            events: old(self).events,
                            next_sequence: old(self).next_sequence,
                            commands: old(self).commands,
                            ..*final(self)
                        }) == *old(self)
                    },
                    AttachDecision::Attached => {
                        let row = final(self).run_context_plans@.last();
                        &&& r matches Ok(Committed::Executed { value, cursor })
                        &&& value.run_id@ == attachment.run_id@ && value.context_plan_digest == *attachment.plan_digest
                        &&& plans_after(old(self).context_plans@, final(self).context_plans@, *attachment)
                        &&& final(self).run_context_plans@.len() == old(self).run_context_plans@.len() + 1
                        &&& final(self).run_context_plans@.drop_last() == old(self).run_context_plans@
                        &&& row.run_id@ == attachment.run_id@
                        &&& row.context_source_snapshot_digest == *attachment.source_snapshot_digest
                        &&& row.context_plan_digest == *attachment.plan_digest
                        &&& command_recorded(*old(self), *final(self), *command, cursor)
                        &&& (Store {
                            context_plans: old(self).context_plans,
                            run_context_plans: old(self).run_context_plans,
                            events: old(self).events,
                            next_sequence: old(self).next_sequence,
                            commands: old(self).commands,
                            ..*final(self)
                        }) == *old(self)
                    },
                }
            },
    {
        match self.command_gate(command) {
            Err(e) => return Err(e),
            Ok(Gate::Replayed { cursor, recorded_at }) => {
                return Ok(Committed::Replayed { cursor, recorded_at });
            },
            Ok(Gate::Fresh) => {},
        }
        let ghost before = *self;
        // 1. The Run, and the only source identity it may claim.
        let ri: usize = match find_run_record(&self.runs, attachment.run_id) {
            Some(i) => i,
            None => {
                return Err(StoreError::RunNotFound { run_id: attachment.run_id.to_owned() });
            },
        };
        let frozen: [u8; 32] = self.runs[ri].context_source_snapshot_digest;
        if !bytes_eq(frozen.as_slice(), attachment.source_snapshot_digest.as_slice()) {
            return Err(
                StoreError::ContextSourceMismatch {
                    run_id: attachment.run_id.to_owned(),
                    frozen: digest_hex(&frozen),
                    proposed: digest_hex(attachment.source_snapshot_digest),
                },
            );
        }
        // 2. The plan's own claim: its bytes must produce its digest.
        if !bytes_eq(attachment.plan_bytes_digest.as_slice(), attachment.plan_digest.as_slice()) {
            return Err(
                StoreError::ContentIdentityConflict {
                    table: "context_plans",
                    id: digest_hex(attachment.plan_digest),
                    detail: "the plan's canonical bytes hash to another digest than the one claimed".to_string(),
                },
            );
        }
        // 3. Insert-or-verify the immutable plan row.
        let pi = find_context_plan(&self.context_plans, attachment.plan_digest);
        proof {
            lemma_find_last(self.context_plans@, context_plan_key(), attachment.plan_digest@);
        }
        match pi {
            Some(p) => {
                if !str_eq(self.context_plans[p].canonical_json.as_str(), attachment.plan_canonical_json) {
                    return Err(
                        StoreError::ContentIdentityConflict {
                            table: "context_plans",
                            id: digest_hex(attachment.plan_digest),
                            detail: "an existing plan row under this digest holds different canonical content".to_string(),
                        },
                    );
                }
                if !bytes_eq(
                    self.context_plans[p].source_snapshot_digest.as_slice(),
                    attachment.source_snapshot_digest.as_slice(),
                ) {
                    return Err(
                        StoreError::InvariantViolated(
                            "a stored plan pairs the claimed digest with another source snapshot".to_string(),
                        ),
                    );
                }
            },
            None => {},
        }
        // 4. Attach exactly once.
        let ai = find_attachment(&self.run_context_plans, attachment.run_id);
        proof {
            lemma_find_last(self.run_context_plans@, plan_key(), attachment.run_id@);
        }
        let reconciled: bool = match ai {
            Some(a) => {
                let existing: [u8; 32] = self.run_context_plans[a].context_plan_digest;
                if !bytes_eq(existing.as_slice(), attachment.plan_digest.as_slice()) {
                    return Err(
                        StoreError::RunContextPlanConflict {
                            run_id: attachment.run_id.to_owned(),
                            attached_plan: digest_hex(&existing),
                            proposed_plan: digest_hex(attachment.plan_digest),
                        },
                    );
                }
                true
            },
            None => false,
        };
        if pi.is_none() {
            let row = ContextPlanRow {
                digest: *attachment.plan_digest,
                source_snapshot_digest: *attachment.source_snapshot_digest,
                builder_version: attachment.builder_version.to_owned(),
                canonical_json: attachment.plan_canonical_json.to_owned(),
            };
            proof {
                lemma_unique_push(self.context_plans@, context_plan_key(), row);
            }
            self.context_plans.push(row);
            proof {
                assert(self.context_plans@.drop_last() =~= before.context_plans@);
            }
        }
        if !reconciled {
            let row = RunContextPlanRecord {
                run_id: attachment.run_id.to_owned(),
                context_source_snapshot_digest: *attachment.source_snapshot_digest,
                context_plan_digest: *attachment.plan_digest,
            };
            proof {
                lemma_unique_push(self.run_context_plans@, plan_key(), row);
            }
            self.run_context_plans.push(row);
            proof {
                assert(self.run_context_plans@.drop_last() =~= before.run_context_plans@);
            }
        }
        let value = AttachedContextPlan {
            run_id: attachment.run_id.to_owned(),
            context_plan_digest: *attachment.plan_digest,
        };
        let ghost mid = *self;
        assert(class_of(mid, *command) is Fresh) by {
            assert(mid.commands == before.commands);
        }
        let cursor = self.record_command(command);
        Ok(Committed::Executed { value, cursor })
    }
}

// ---- Reads ---------------------------------------------------------------------

impl Store {
    /// The committed Run's immutable identity row.
    pub fn run(&self, run_id: &str) -> (r: Result<Option<RunRecord>, StoreError>)
        ensures
            ({
                let i = find_last(self.runs@, run_record_key(), run_id@);
                r == Ok::<Option<RunRecord>, StoreError>(if i >= 0 { Some(self.runs@[i]) } else { None })
            }),
    {
        match find_run_record(&self.runs, run_id) {
            Some(i) => {
                let row = &self.runs[i];
                Ok(
                    Some(
                        RunRecord {
                            id: row.id.clone(),
                            task_id: row.task_id.clone(),
                            binding_digest: row.binding_digest,
                            context_source_snapshot_digest: row.context_source_snapshot_digest,
                        },
                    ),
                )
            },
            None => Ok(None),
        }
    }

    /// The Run's one-time ContextPlan attachment, if it exists yet.
    pub fn run_context_plan(&self, run_id: &str) -> (r: Result<Option<RunContextPlanRecord>, StoreError>)
        ensures
            ({
                let i = find_last(self.run_context_plans@, plan_key(), run_id@);
                r == Ok::<Option<RunContextPlanRecord>, StoreError>(
                    if i >= 0 { Some(self.run_context_plans@[i]) } else { None },
                )
            }),
    {
        match find_attachment(&self.run_context_plans, run_id) {
            Some(i) => {
                let row = &self.run_context_plans[i];
                Ok(
                    Some(
                        RunContextPlanRecord {
                            run_id: row.run_id.clone(),
                            context_source_snapshot_digest: row.context_source_snapshot_digest,
                            context_plan_digest: row.context_plan_digest,
                        },
                    ),
                )
            },
            None => Ok(None),
        }
    }

    /// The frozen source snapshot's stored canonical JSON, by digest.
    pub fn context_source_snapshot_json(&self, digest: &[u8; 32]) -> (r: Result<Option<String>, StoreError>)
        ensures
            ({
                let i = find_last(self.context_source_snapshots@, snapshot_key(), digest@);
                match r {
                    Ok(Some(j)) => i >= 0 && j@ == self.context_source_snapshots@[i].snapshot.canonical_json@,
                    Ok(None) => i < 0,
                    Err(_) => false,
                }
            }),
    {
        match find_snapshot(&self.context_source_snapshots, digest) {
            Some(i) => Ok(Some(self.context_source_snapshots[i].snapshot.canonical_json.clone())),
            None => Ok(None),
        }
    }

    /// The immutable content of one Goal revision, with its digest.
    pub fn goal_revision_content(&self, goal_id: &str, revision: i64) -> (r: Result<Option<GoalRevisionContent>, StoreError>)
        ensures
            ({
                let i = find_last(self.goal_revisions@, goal_revision_key(), (goal_id@, revision));
                let row = self.goal_revisions@[i];
                match r {
                    Ok(Some(c)) => i >= 0 && c.goal_id@ == goal_id@ && c.revision == revision
                        && c.content_digest == row.content_digest && c.canonical_json@ == row.canonical_json@,
                    Ok(None) => i < 0,
                    Err(_) => false,
                }
            }),
    {
        let ghost k = (goal_id@, revision);
        let mut i: usize = self.goal_revisions.len();
        while i > 0
            invariant
                i <= self.goal_revisions@.len(),
                k == (goal_id@, revision),
                forall|j: int| i <= j < self.goal_revisions@.len() ==> (goal_revision_key())(#[trigger] self.goal_revisions@[j]) != k,
            decreases i,
        {
            i = i - 1;
            let row = &self.goal_revisions[i];
            if row.revision == revision && str_eq(row.goal_id.as_str(), goal_id) {
                proof {
                    lemma_find_last_is(self.goal_revisions@, goal_revision_key(), k, i as int);
                }
                return Ok(
                    Some(
                        GoalRevisionContent {
                            goal_id: goal_id.to_owned(),
                            revision,
                            content_digest: row.content_digest,
                            canonical_json: row.canonical_json.clone(),
                        },
                    ),
                );
            }
        }
        proof {
            lemma_find_last(self.goal_revisions@, goal_revision_key(), k);
        }
        Ok(None)
    }

    /// The phase and materialization of the Workspace a Run was frozen
    /// against, or `None` when the Run, its source snapshot or the Workspace
    /// is not stored.
    pub fn workspace_readiness(&self, run_id: &str) -> (r: Result<Option<(String, String)>, StoreError>)
        ensures
            ({
                let ri = find_last(self.runs@, run_record_key(), run_id@);
                let si = find_last(
                    self.context_source_snapshots@,
                    snapshot_key(),
                    self.runs@[ri].context_source_snapshot_digest@,
                );
                let wi = find_last(
                    self.workspaces@,
                    workspace_key(),
                    self.context_source_snapshots@[si].snapshot.workspace_id@,
                );
                match r {
                    Ok(Some((phase, materialization))) => ri >= 0 && si >= 0 && wi >= 0 && phase@
                        == self.workspaces@[wi].phase@ && materialization@ == self.workspaces@[wi].materialization@,
                    Ok(None) => ri < 0 || si < 0 || wi < 0,
                    Err(_) => false,
                }
            }),
    {
        let ri: usize = match find_run_record(&self.runs, run_id) {
            Some(ri) => ri,
            None => return Ok(None),
        };
        let si: usize = match find_snapshot(
            &self.context_source_snapshots,
            &self.runs[ri].context_source_snapshot_digest,
        ) {
            Some(si) => si,
            None => return Ok(None),
        };
        let wi: usize = match find_workspace(
            &self.workspaces,
            self.context_source_snapshots[si].snapshot.workspace_id.as_str(),
        ) {
            Some(wi) => wi,
            None => return Ok(None),
        };
        Ok(Some((self.workspaces[wi].phase.clone(), self.workspaces[wi].materialization.clone())))
    }

    /// The canonical form of one frozen execution binding, by digest.
    pub fn binding_canonical_json(&self, digest: &[u8; 32]) -> (r: Result<Option<String>, StoreError>)
        ensures
            ({
                let bi = find_last(self.execution_bindings@, binding_key(), digest@);
                match r {
                    Ok(Some(json)) => bi >= 0 && json@ == self.execution_bindings@[bi].binding.canonical_json@,
                    Ok(None) => bi < 0,
                    Err(_) => false,
                }
            }),
    {
        match find_binding(&self.execution_bindings, digest) {
            Some(bi) => Ok(Some(self.execution_bindings[bi].binding.canonical_json.clone())),
            None => Ok(None),
        }
    }

    /// An immutable compiled configuration component by digest: the domain
    /// it is stored under and its canonical JSON, or `None` when no component
    /// has that digest. This is how a Run's frozen policy and agents
    /// components are reconstructed exactly, through their content
    /// addresses, never through the active pointer. Components are stored
    /// only under the digest their compiler computed and are never rewritten,
    /// so the payload is the one the digest names; the digest function
    /// itself belongs to the configuration compiler and is not recomputed
    /// here.
    pub fn configuration_component_json(&self, digest: &[u8; 32]) -> (r: Result<Option<(String, String)>, StoreError>)
        ensures
            match r {
                Ok(Some((domain, json))) => exists|c: int|
                    0 <= c < self.configuration_components@.len()
                        && (#[trigger] self.configuration_components@[c]).digest@ == digest@
                        && domain@ == self.configuration_components@[c].domain@
                        && json@ == self.configuration_components@[c].canonical_json@,
                Ok(None) => !component_stored(self.configuration_components@, *digest),
                Err(_) => false,
            },
    {
        match find_component(&self.configuration_components, digest) {
            Some(c) => {
                let component = &self.configuration_components[c];
                Ok(Some((component.domain.clone(), component.canonical_json.clone())))
            },
            None => Ok(None),
        }
    }

    /// The immutable agents component of one historical configuration
    /// revision, by activation sequence: how a Run prepared under revision N
    /// keeps resolving N's Agent guidance after a later one activated.
    pub fn revision_agents_component_json(&self, activation_sequence: i64) -> (r: Result<Option<String>, StoreError>)
        requires
            self.wf(),
        ensures
            match r {
                Ok(Some(j)) => exists|i: int, c: int|
                    0 <= i < self.configuration_revisions@.len() && 0 <= c < self.configuration_components@.len()
                        && (#[trigger] self.configuration_revisions@[i]).activation_sequence == activation_sequence
                        && (#[trigger] self.configuration_components@[c]).digest@
                        == self.configuration_revisions@[i].components.agents@
                        && self.configuration_components@[c].domain@ == "agents"@
                        && j@ == self.configuration_components@[c].canonical_json@,
                Ok(None) => !exists|i: int, c: int|
                    0 <= i < self.configuration_revisions@.len() && 0 <= c < self.configuration_components@.len()
                        && (#[trigger] self.configuration_revisions@[i]).activation_sequence == activation_sequence
                        && (#[trigger] self.configuration_components@[c]).digest@
                        == self.configuration_revisions@[i].components.agents@
                        && self.configuration_components@[c].domain@ == "agents"@,
                Err(_) => false,
            },
    {
        let mut i: usize = 0;
        while i < self.configuration_revisions.len()
            invariant
                self.wf(),
                i <= self.configuration_revisions@.len(),
                forall|x: int, c: int|
                    0 <= x < i && 0 <= c < self.configuration_components@.len()
                        && (#[trigger] self.configuration_revisions@[x]).activation_sequence == activation_sequence
                        ==> !((#[trigger] self.configuration_components@[c]).digest@
                        == self.configuration_revisions@[x].components.agents@
                        && self.configuration_components@[c].domain@ == "agents"@),
            decreases self.configuration_revisions@.len() - i,
        {
            if self.configuration_revisions[i].activation_sequence == activation_sequence {
                let d = self.configuration_revisions[i].components.agents;
                let mut c: usize = 0;
                while c < self.configuration_components.len()
                    invariant
                        i < self.configuration_revisions@.len(),
                        d == self.configuration_revisions@[i as int].components.agents,
                        self.configuration_revisions@[i as int].activation_sequence == activation_sequence,
                        c <= self.configuration_components@.len(),
                        forall|y: int|
                            0 <= y < c ==> !((#[trigger] self.configuration_components@[y]).digest@ == d@
                                && self.configuration_components@[y].domain@ == "agents"@),
                    decreases self.configuration_components@.len() - c,
                {
                    let comp = &self.configuration_components[c];
                    if bytes_eq(comp.digest.as_slice(), d.as_slice()) && str_eq(comp.domain.as_str(), "agents") {
                        return Ok(Some(comp.canonical_json.clone()));
                    }
                    c = c + 1;
                }
            }
            i = i + 1;
        }
        Ok(None)
    }
}

} // verus!
