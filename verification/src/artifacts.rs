//! Durable publication of a sealed `code.changeset`.
//!
//! Publication is the last step of sealing: every byte it claims is already
//! durable in content-addressed storage, and one authoritative transaction
//! re-reads every mutable authority the seal depended on, inserts or reuses
//! the immutable rows, and records the command. Reuse is convergence: a
//! second capture of identical state finds the existing blob, artifact and
//! workspace-revision rows and verifies them instead of overwriting, so two
//! captures of one state produce one content identity and never two
//! contradictory immutable rows.

use vstd::prelude::*;

use crate::agent_control::DeclaredOutput;
use crate::command::{class_of, command_recorded, gate_outcome, Command, CommandClass, Committed, Gate};
use crate::error::StoreError;
use crate::execution::{attempt_key, run_key};
use crate::planning::{spec_key, task_key, TaskPhase};
use crate::revision::Revision;
use crate::scheduling::{find_snapshot, find_workspace, run_record_key, snapshot_key, workspace_key};
use crate::store::Store;
use crate::table::{
    find_last, has_key, lemma_find_last, lemma_find_last_is, lemma_find_last_push, lemma_unique_push, unique_by,
};
use crate::text::{bytes_eq, bytes_hex, digest_hex, str_eq};

verus! {

/// The Run authority a seal claims: the Run, at the status revision the
/// caller observed.
#[derive(Debug, Clone, PartialEq, Eq)]
pub struct SealAuthority {
    pub run_id: String,
    pub expected_run_revision: Revision,
}

/// The authenticated producer context an Agent Control seal carries into
/// publication: the Attempt whose session requested the seal.
#[derive(Debug, Clone, Copy)]
pub struct ProducerProvenance<'a> {
    pub attempt_id: &'a str,
}

/// Everything the publication transaction needs. Every digest was computed
/// outside any transaction, so each is a claim to verify against current
/// authority, not a fact.
#[derive(Debug)]
pub struct SealedChangeset<'a> {
    /// The Workspace whose state was captured.
    pub workspace_id: &'a str,
    /// The Task the Workspace must still belong to.
    pub task_id: &'a str,
    /// The post-freeze Workspace revision the seal fence holds.
    pub fence_revision: Revision,
    /// The execution authority claimed for this seal.
    pub authority: &'a SealAuthority,
    /// The TaskSpec output slot this seal produces.
    pub output_slot: &'a str,
    /// The repository identity recorded on the checkpoint.
    pub repository: &'a str,
    /// The resolved immutable base the before-state was derived from.
    pub resolved_base: &'a str,
    /// The immutable semantic-state digest of the captured logical tree.
    pub revision_state_digest: [u8; 32],
    /// The canonical JSON document of that state.
    pub revision_state_json: &'a str,
    /// The digest of the canonical changeset manifest.
    pub artifact_digest: [u8; 32],
    /// The canonical JSON manifest itself.
    pub artifact_json: &'a str,
    /// Every payload-bearing member, `(digest, size)`, already durable.
    pub members: Vec<([u8; 32], u64)>,
    /// The producer provenance to bind, when the seal came through Agent
    /// Control.
    pub producer: Option<ProducerProvenance<'a>>,
}

/// What the publication committed.
#[derive(Debug, Clone, PartialEq, Eq)]
pub struct SealOutcome {
    /// The workspace-revision checkpoint row this seal bound (created or
    /// reused).
    pub workspace_revision_id: String,
    /// Whether an Artifact with this exact manifest digest already existed.
    pub artifact_reused: bool,
}

/// One stored Artifact row, by content identity.
#[derive(Debug, Clone, PartialEq, Eq)]
pub struct ArtifactRecord {
    pub digest: [u8; 32],
    pub kind: String,
    pub canonical_json: String,
}

/// One Blob: identity is digest and size.
#[derive(Debug, Clone, PartialEq, Eq)]
pub struct BlobRow {
    pub digest: [u8; 32],
    pub size: i64,
}

/// The reachability of one Blob from one Artifact.
#[derive(Debug, Clone, PartialEq, Eq)]
pub struct ArtifactMemberRow {
    pub artifact_digest: [u8; 32],
    pub blob_digest: [u8; 32],
}

/// One immutable Workspace checkpoint.
#[derive(Debug, Clone, PartialEq, Eq)]
pub struct WorkspaceRevisionRow {
    pub id: String,
    pub workspace_id: String,
    pub repository: String,
    pub resolved_base: String,
    pub state_digest: [u8; 32],
    pub canonical_json: String,
}

/// Which execution lineage produced which content for one output slot.
#[derive(Debug, Clone, PartialEq, Eq)]
pub struct ProductionRecord {
    pub run_id: String,
    pub output_slot: String,
    pub task_id: String,
    pub attempt_id: String,
    pub workspace_revision_id: String,
    pub artifact_digest: [u8; 32],
}

pub open spec fn blob_key() -> spec_fn(BlobRow) -> Seq<u8> {
    |r: BlobRow| r.digest@
}

pub open spec fn artifact_key() -> spec_fn(ArtifactRecord) -> Seq<u8> {
    |r: ArtifactRecord| r.digest@
}

pub open spec fn member_key() -> spec_fn(ArtifactMemberRow) -> (Seq<u8>, Seq<u8>) {
    |r: ArtifactMemberRow| (r.artifact_digest@, r.blob_digest@)
}

pub open spec fn workspace_revision_key() -> spec_fn(WorkspaceRevisionRow) -> Seq<char> {
    |r: WorkspaceRevisionRow| r.id@
}

pub open spec fn checkpoint_key() -> spec_fn(WorkspaceRevisionRow) -> (Seq<char>, Seq<u8>) {
    |r: WorkspaceRevisionRow| (r.workspace_id@, r.state_digest@)
}

pub open spec fn production_key() -> spec_fn(ProductionRecord) -> (Seq<char>, Seq<char>) {
    |r: ProductionRecord| (r.run_id@, r.output_slot@)
}

/// The kind of Artifact a seal publishes.
pub open spec fn changeset_kind() -> Seq<char> {
    "code.changeset"@
}

impl Store {
    /// The artifact family's invariants: every table keyed, one checkpoint
    /// per Workspace state, one production record per Run output slot.
    pub open spec fn artifacts_wf(&self) -> bool {
        &&& unique_by(self.blobs@, blob_key())
        &&& unique_by(self.artifacts@, artifact_key())
        &&& unique_by(self.artifact_members@, member_key())
        &&& unique_by(self.workspace_revisions@, workspace_revision_key())
        &&& unique_by(self.workspace_revisions@, checkpoint_key())
        &&& unique_by(self.production_records@, production_key())
    }
}

// ---- Authority ----------------------------------------------------------------

/// Whether the claimed Run still carries seal authority for the Task's
/// Workspace and output slot: the Task is still executing (`Active`) and the
/// Run is its responsible, nonterminal, revision-current Run, bound to exactly this Workspace at its immutable
/// base, and the frozen spec declares the slot as a `code.changeset`.
pub open spec fn seal_authority_holds(s: Store, seal: SealedChangeset) -> bool {
    let run_id = seal.authority.run_id@;
    let si = find_last(s.run_status@, run_key(), run_id);
    let st = s.run_status@[si];
    let ti = find_last(s.tasks@, task_key(), seal.task_id@);
    let t = s.tasks@[ti];
    let ri = find_last(s.runs@, run_record_key(), run_id);
    let ni = find_last(s.context_source_snapshots@, snapshot_key(), s.runs@[ri].context_source_snapshot_digest@);
    let snap = s.context_source_snapshots@[ni].snapshot;
    let wi = find_last(s.workspaces@, workspace_key(), seal.workspace_id@);
    let pi = find_last(s.task_specs@, spec_key(), t.spec_digest@);
    &&& si >= 0 && st.phase.is_nonterminal() && st.revision == seal.authority.expected_run_revision.value
    &&& st.task_id@ == seal.task_id@
    &&& ti >= 0 && t.phase == TaskPhase::Active && (t.active_run_id matches Some(r) && r@ == run_id)
    &&& ri >= 0 && ni >= 0
    &&& snap.workspace_id@ == seal.workspace_id@ && wi >= 0 && snap.workspace_resolved_base@ == s.workspaces@[wi].resolved_base@
    &&& pi >= 0 && exists|k: int|
        0 <= k < s.task_specs@[pi].outputs@.len() && (#[trigger] s.task_specs@[pi].outputs@[k]).name@
            == seal.output_slot@ && s.task_specs@[pi].outputs@[k].kind@ == changeset_kind()
}

// ---- Blobs ------------------------------------------------------------------

/// How publishing a member list goes against stored Blobs.
pub enum BlobMerge {
    /// Every member stored or reused; the resulting Blob table.
    Merged(Seq<BlobRow>),
    /// A member's size cannot be stored.
    TooLarge,
    /// A stored Blob disagrees with a member's size.
    SizeConflict([u8; 32]),
}

/// The Blob table after publishing `members` in order: a stored digest must
/// have exactly the claimed size, a new one is stored.
pub open spec fn merge_blobs(blobs: Seq<BlobRow>, members: Seq<([u8; 32], u64)>) -> BlobMerge
    decreases members.len(),
{
    if members.len() == 0 {
        BlobMerge::Merged(blobs)
    } else {
        match merge_blobs(blobs, members.drop_last()) {
            BlobMerge::Merged(b) => {
                let (d, size) = members.last();
                let i = find_last(b, blob_key(), d@);
                if size > i64::MAX {
                    BlobMerge::TooLarge
                } else if i >= 0 {
                    if b[i].size == size {
                        BlobMerge::Merged(b)
                    } else {
                        BlobMerge::SizeConflict(d)
                    }
                } else {
                    BlobMerge::Merged(b.push(BlobRow { digest: d, size: size as i64 }))
                }
            },
            other => other,
        }
    }
}

/// A member list stored in full: every member's digest names a stored Blob
/// of exactly the member's size.
pub open spec fn members_stored(blobs: Seq<BlobRow>, members: Seq<([u8; 32], u64)>) -> bool {
    forall|k: int|
        0 <= k < members.len() ==> {
            let i = find_last(blobs, blob_key(), (#[trigger] members[k]).0@);
            &&& i >= 0
            &&& blobs[i].size == members[k].1
        }
}

/// A successful merge stores every member and keeps every stored Blob.
pub proof fn lemma_merge_stores(blobs: Seq<BlobRow>, members: Seq<([u8; 32], u64)>)
    requires
        merge_blobs(blobs, members) is Merged,
    ensures
        members_stored(merge_blobs(blobs, members)->Merged_0, members),
        forall|d: Seq<u8>|
            #![trigger find_last(blobs, blob_key(), d)]
            find_last(blobs, blob_key(), d) >= 0 ==> {
                let b2 = merge_blobs(blobs, members)->Merged_0;
                let j = find_last(b2, blob_key(), d);
                j >= 0 && b2[j].size == blobs[find_last(blobs, blob_key(), d)].size
            },
    decreases members.len(),
{
    if members.len() > 0 {
        let front = members.drop_last();
        lemma_merge_stores(blobs, front);
        let b = merge_blobs(blobs, front)->Merged_0;
        let (d, size) = members.last();
        let i = find_last(b, blob_key(), d@);
        lemma_find_last(b, blob_key(), d@);
        if i < 0 {
            let row = BlobRow { digest: d, size: size as i64 };
            let b2 = b.push(row);
            assert(size <= i64::MAX);
            assert(merge_blobs(blobs, members) == BlobMerge::Merged(b2));
            assert forall|k: int| 0 <= k < members.len() implies {
                let j = find_last(b2, blob_key(), (#[trigger] members[k]).0@);
                &&& j >= 0
                &&& b2[j].size == members[k].1
            } by {
                lemma_find_last_push(b, blob_key(), row, members[k].0@);
                if k < front.len() {
                    assert(members[k] == front[k]);
                    let j = find_last(b, blob_key(), front[k].0@);
                    lemma_find_last(b, blob_key(), front[k].0@);
                    assert(j >= 0);
                    assert(b2[j] == b[j]);
                } else {
                    assert(members[k] == members.last());
                    assert(b2[b.len() as int] == row);
                }
            }
            assert forall|e: Seq<u8>| #![trigger find_last(blobs, blob_key(), e)]
                find_last(blobs, blob_key(), e) >= 0 implies {
                    let j = find_last(b2, blob_key(), e);
                    j >= 0 && b2[j].size == blobs[find_last(blobs, blob_key(), e)].size
                } by {
                lemma_find_last_push(b, blob_key(), row, e);
                let j = find_last(b, blob_key(), e);
                lemma_find_last(b, blob_key(), e);
                assert(j >= 0);
                assert(b2[j] == b[j]);
            }
        } else {
            assert(merge_blobs(blobs, members) == BlobMerge::Merged(b));
            assert forall|k: int| 0 <= k < members.len() implies {
                let j = find_last(b, blob_key(), (#[trigger] members[k]).0@);
                &&& j >= 0
                &&& b[j].size == members[k].1
            } by {
                if k < front.len() {
                    assert(members[k] == front[k]);
                }
            }
        }
    }
}

/// Merging members that are all stored, each at a size the table can hold,
/// changes nothing.
pub proof fn lemma_merge_stored_is_identity(blobs: Seq<BlobRow>, members: Seq<([u8; 32], u64)>)
    requires
        members_stored(blobs, members),
        forall|k: int| 0 <= k < members.len() ==> (#[trigger] members[k]).1 <= i64::MAX,
    ensures
        merge_blobs(blobs, members) == BlobMerge::Merged(blobs),
    decreases members.len(),
{
    if members.len() > 0 {
        let front = members.drop_last();
        assert forall|k: int| 0 <= k < front.len() implies {
            let i = find_last(blobs, blob_key(), (#[trigger] front[k]).0@);
            &&& i >= 0
            &&& blobs[i].size == front[k].1
        } by {
            assert(front[k] == members[k]);
        }
        assert forall|k: int| 0 <= k < front.len() implies (#[trigger] front[k]).1 <= i64::MAX by {
            assert(front[k] == members[k]);
        }
        lemma_merge_stored_is_identity(blobs, front);
        let last = members.len() - 1;
        assert(members[last] == members.last());
    }
}

/// A successful merge only admits members whose size the table can hold.
pub proof fn lemma_merge_sizes(blobs: Seq<BlobRow>, members: Seq<([u8; 32], u64)>)
    requires
        merge_blobs(blobs, members) is Merged,
    ensures
        forall|k: int| 0 <= k < members.len() ==> (#[trigger] members[k]).1 <= i64::MAX,
    decreases members.len(),
{
    if members.len() > 0 {
        let front = members.drop_last();
        lemma_merge_sizes(blobs, front);
        assert forall|k: int| 0 <= k < members.len() implies (#[trigger] members[k]).1 <= i64::MAX by {
            if k < front.len() {
                assert(members[k] == front[k]);
            }
        }
    }
}

/// The member table after recording `artifact`'s members, ignoring pairs
/// already recorded.
pub open spec fn merge_members(rows: Seq<ArtifactMemberRow>, artifact: [u8; 32], members: Seq<([u8; 32], u64)>) -> Seq<
    ArtifactMemberRow,
>
    decreases members.len(),
{
    if members.len() == 0 {
        rows
    } else {
        let before = merge_members(rows, artifact, members.drop_last());
        let row = ArtifactMemberRow { artifact_digest: artifact, blob_digest: members.last().0 };
        if has_key(before, member_key(), (artifact@, members.last().0@)) {
            before
        } else {
            before.push(row)
        }
    }
}

fn find_blob(rows: &Vec<BlobRow>, d: &[u8; 32]) -> (r: Option<usize>)
    ensures
        match r {
            Some(i) => i < rows@.len() && i == find_last(rows@, blob_key(), d@),
            None => find_last(rows@, blob_key(), d@) == -1,
        },
{
    let mut i: usize = rows.len();
    while i > 0
        invariant
            i <= rows@.len(),
            forall|j: int| i <= j < rows@.len() ==> (blob_key())(#[trigger] rows@[j]) != d@,
        decreases i,
    {
        i = i - 1;
        if bytes_eq(rows[i].digest.as_slice(), d.as_slice()) {
            proof {
                lemma_find_last_is(rows@, blob_key(), d@, i as int);
            }
            return Some(i);
        }
    }
    proof {
        lemma_find_last(rows@, blob_key(), d@);
    }
    None
}

pub(crate) fn has_member(rows: &Vec<ArtifactMemberRow>, artifact: &[u8; 32], blob: &[u8; 32]) -> (r: bool)
    ensures
        r == has_key(rows@, member_key(), (artifact@, blob@)),
{
    let mut i: usize = 0;
    while i < rows.len()
        invariant
            i <= rows@.len(),
            forall|j: int| 0 <= j < i ==> (member_key())(#[trigger] rows@[j]) != (artifact@, blob@),
        decreases rows@.len() - i,
    {
        if bytes_eq(rows[i].artifact_digest.as_slice(), artifact.as_slice()) && bytes_eq(
            rows[i].blob_digest.as_slice(),
            blob.as_slice(),
        ) {
            assert((member_key())(rows@[i as int]) == (artifact@, blob@));
            return true;
        }
        i = i + 1;
    }
    false
}

/// Whether `artifact` records the payload `blob` as a member.
pub(crate) fn has_member_bytes(rows: &Vec<ArtifactMemberRow>, artifact: &[u8; 32], blob: &[u8]) -> (r: bool)
    ensures
        r == has_key(rows@, member_key(), (artifact@, blob@)),
{
    let mut i: usize = 0;
    while i < rows.len()
        invariant
            i <= rows@.len(),
            forall|j: int| 0 <= j < i ==> (member_key())(#[trigger] rows@[j]) != (artifact@, blob@),
        decreases rows@.len() - i,
    {
        if bytes_eq(rows[i].artifact_digest.as_slice(), artifact.as_slice()) && bytes_eq(
            rows[i].blob_digest.as_slice(),
            blob,
        ) {
            assert((member_key())(rows@[i as int]) == (artifact@, blob@));
            return true;
        }
        i = i + 1;
    }
    false
}

/// A failed prefix fails the whole publication the same way.
proof fn lemma_merge_blobs_fails(blobs: Seq<BlobRow>, members: Seq<([u8; 32], u64)>, i: int)
    requires
        0 <= i <= members.len(),
        !(merge_blobs(blobs, members.take(i)) is Merged),
    ensures
        merge_blobs(blobs, members) == merge_blobs(blobs, members.take(i)),
    decreases members.len() - i,
{
    if i < members.len() {
        let t = members.take(i + 1);
        assert(t.drop_last() =~= members.take(i));
        lemma_merge_blobs_fails(blobs, members, i + 1);
    } else {
        assert(members.take(i) =~= members);
    }
}

fn find_checkpoint(rows: &Vec<WorkspaceRevisionRow>, workspace_id: &str, d: &[u8; 32]) -> (r: Option<usize>)
    ensures
        match r {
            Some(i) => i < rows@.len() && i == find_last(rows@, checkpoint_key(), (workspace_id@, d@)),
            None => find_last(rows@, checkpoint_key(), (workspace_id@, d@)) == -1,
        },
{
    let ghost k = (workspace_id@, d@);
    let mut i: usize = rows.len();
    while i > 0
        invariant
            i <= rows@.len(),
            k == (workspace_id@, d@),
            forall|j: int| i <= j < rows@.len() ==> (checkpoint_key())(#[trigger] rows@[j]) != k,
        decreases i,
    {
        i = i - 1;
        if str_eq(rows[i].workspace_id.as_str(), workspace_id) && bytes_eq(rows[i].state_digest.as_slice(), d.as_slice()) {
            proof {
                lemma_find_last_is(rows@, checkpoint_key(), k, i as int);
            }
            return Some(i);
        }
    }
    proof {
        lemma_find_last(rows@, checkpoint_key(), k);
    }
    None
}

fn has_revision_id(rows: &Vec<WorkspaceRevisionRow>, id: &str) -> (r: bool)
    ensures
        r == has_key(rows@, workspace_revision_key(), id@),
{
    let mut i: usize = 0;
    while i < rows.len()
        invariant
            i <= rows@.len(),
            forall|j: int| 0 <= j < i ==> (workspace_revision_key())(#[trigger] rows@[j]) != id@,
        decreases rows@.len() - i,
    {
        if str_eq(rows[i].id.as_str(), id) {
            assert((workspace_revision_key())(rows@[i as int]) == id@);
            return true;
        }
        i = i + 1;
    }
    false
}

pub(crate) fn find_artifact(rows: &Vec<ArtifactRecord>, d: &[u8; 32]) -> (r: Option<usize>)
    ensures
        match r {
            Some(i) => i < rows@.len() && i == find_last(rows@, artifact_key(), d@),
            None => find_last(rows@, artifact_key(), d@) == -1,
        },
{
    let mut i: usize = rows.len();
    while i > 0
        invariant
            i <= rows@.len(),
            forall|j: int| i <= j < rows@.len() ==> (artifact_key())(#[trigger] rows@[j]) != d@,
        decreases i,
    {
        i = i - 1;
        if bytes_eq(rows[i].digest.as_slice(), d.as_slice()) {
            proof {
                lemma_find_last_is(rows@, artifact_key(), d@, i as int);
            }
            return Some(i);
        }
    }
    proof {
        lemma_find_last(rows@, artifact_key(), d@);
    }
    None
}

pub(crate) fn find_production(rows: &Vec<ProductionRecord>, run_id: &str, slot: &str) -> (r: Option<usize>)
    ensures
        match r {
            Some(i) => i < rows@.len() && i == find_last(rows@, production_key(), (run_id@, slot@)),
            None => find_last(rows@, production_key(), (run_id@, slot@)) == -1,
        },
{
    let ghost k = (run_id@, slot@);
    let mut i: usize = rows.len();
    while i > 0
        invariant
            i <= rows@.len(),
            k == (run_id@, slot@),
            forall|j: int| i <= j < rows@.len() ==> (production_key())(#[trigger] rows@[j]) != k,
        decreases i,
    {
        i = i - 1;
        if str_eq(rows[i].run_id.as_str(), run_id) && str_eq(rows[i].output_slot.as_str(), slot) {
            proof {
                lemma_find_last_is(rows@, production_key(), k, i as int);
            }
            return Some(i);
        }
    }
    proof {
        lemma_find_last(rows@, production_key(), k);
    }
    None
}

fn declares_changeset_slot(outputs: &Vec<DeclaredOutput>, slot: &str) -> (r: bool)
    ensures
        r == exists|k: int| 0 <= k < outputs@.len() && (#[trigger] outputs@[k]).name@ == slot@ && outputs@[k].kind@
            == changeset_kind(),
{
    let mut i: usize = 0;
    while i < outputs.len()
        invariant
            i <= outputs@.len(),
            forall|k: int| 0 <= k < i ==> !((#[trigger] outputs@[k]).name@ == slot@ && outputs@[k].kind@ == changeset_kind()),
        decreases outputs@.len() - i,
    {
        if str_eq(outputs[i].name.as_str(), slot) && str_eq(outputs[i].kind.as_str(), "code.changeset") {
            return true;
        }
        i = i + 1;
    }
    false
}

impl Store {
    /// Re-proves the claimed Run's seal authority.
    fn check_seal_authority(&self, seal: &SealedChangeset) -> (r: bool)
        requires
            self.wf(),
        ensures
            r == seal_authority_holds(*self, *seal),
    {
        let run_id = seal.authority.run_id.as_str();
        let si: usize = match crate::execution::find_run(&self.run_status, run_id) {
            None => return false,
            Some(i) => i,
        };
        let st = &self.run_status[si];
        if !(st.phase == crate::execution::RunPhase::Active || st.phase == crate::execution::RunPhase::Finalizing)
            || st.revision != seal.authority.expected_run_revision.value || !str_eq(st.task_id.as_str(), seal.task_id) {
            return false;
        }
        let ti: usize = match crate::planning::find_task(&self.tasks, seal.task_id) {
            None => return false,
            Some(i) => i,
        };
        let t = &self.tasks[ti];
        let responsible: bool = match &t.active_run_id {
            Some(r) => str_eq(r.as_str(), run_id),
            None => false,
        };
        if !responsible || t.phase != TaskPhase::Active {
            return false;
        }
        let ri: usize = match crate::context::find_run_record(&self.runs, run_id) {
            None => return false,
            Some(i) => i,
        };
        let ni: usize = match find_snapshot(&self.context_source_snapshots, &self.runs[ri].context_source_snapshot_digest) {
            None => return false,
            Some(i) => i,
        };
        let snap = &self.context_source_snapshots[ni].snapshot;
        let wi = find_workspace(&self.workspaces, seal.workspace_id);
        let base_ok: bool = match wi {
            Some(w) => str_eq(snap.workspace_resolved_base.as_str(), self.workspaces[w].resolved_base.as_str()),
            None => false,
        };
        proof {
            lemma_find_last(self.workspaces@, workspace_key(), seal.workspace_id@);
        }
        if !str_eq(snap.workspace_id.as_str(), seal.workspace_id) || !base_ok {
            return false;
        }
        let pi: usize = match crate::planning::find_spec_row(&self.task_specs, &t.spec_digest) {
            None => return false,
            Some(i) => i,
        };
        declares_changeset_slot(&self.task_specs[pi].outputs, seal.output_slot)
    }
}

// ---- Publication ----------------------------------------------------------------

/// Why publishing a seal refuses, or that it may commit.
pub enum SealDecision {
    WorkspaceMissing,
    NotOwner,
    NotFrozen,
    FenceMoved,
    AuthorityGone,
    BlobTooLarge,
    BlobSizeConflict([u8; 32]),
    RevisionIdTaken,
    ArtifactDiffers,
    ProductionDiffers,
    AttemptForeign,
    Admitted,
}

/// The Workspace is still owned by the Task and frozen at the fence.
pub open spec fn seal_fence_holds(s: Store, seal: SealedChangeset) -> bool {
    let wi = find_last(s.workspaces@, workspace_key(), seal.workspace_id@);
    let w = s.workspaces@[wi];
    &&& wi >= 0
    &&& w.task_id@ == seal.task_id@
    &&& w.phase@ == "Frozen"@
    &&& w.revision == seal.fence_revision.value
}

/// The checkpoint id a publication binds: the existing checkpoint of this
/// Workspace state, or the freshly drawn one.
pub open spec fn bound_revision_id(s: Store, seal: SealedChangeset, fresh: Seq<char>) -> Seq<char> {
    let ci = find_last(s.workspace_revisions@, checkpoint_key(), (seal.workspace_id@, seal.revision_state_digest@));
    if ci >= 0 {
        s.workspace_revisions@[ci].id@
    } else {
        fresh
    }
}

/// The decision publishing `seal` reaches on `s`, with `fresh` as the id a
/// new checkpoint would take.
pub open spec fn seal_decision(s: Store, seal: SealedChangeset, fresh: Seq<char>) -> SealDecision {
    let wi = find_last(s.workspaces@, workspace_key(), seal.workspace_id@);
    let w = s.workspaces@[wi];
    let ci = find_last(s.workspace_revisions@, checkpoint_key(), (seal.workspace_id@, seal.revision_state_digest@));
    let ai = find_last(s.artifacts@, artifact_key(), seal.artifact_digest@);
    let pr = find_last(s.production_records@, production_key(), (seal.authority.run_id@, seal.output_slot@));
    let rec = s.production_records@[pr];
    if wi < 0 {
        SealDecision::WorkspaceMissing
    } else if w.task_id@ != seal.task_id@ {
        SealDecision::NotOwner
    } else if w.phase@ != "Frozen"@ {
        SealDecision::NotFrozen
    } else if w.revision != seal.fence_revision.value {
        SealDecision::FenceMoved
    } else if !seal_authority_holds(s, seal) {
        SealDecision::AuthorityGone
    } else if merge_blobs(s.blobs@, seal.members@) is TooLarge {
        SealDecision::BlobTooLarge
    } else if merge_blobs(s.blobs@, seal.members@) is SizeConflict {
        SealDecision::BlobSizeConflict(merge_blobs(s.blobs@, seal.members@)->SizeConflict_0)
    } else if ci < 0 && has_key(s.workspace_revisions@, workspace_revision_key(), fresh) {
        SealDecision::RevisionIdTaken
    } else if ai >= 0 && (s.artifacts@[ai].kind@ != changeset_kind() || s.artifacts@[ai].canonical_json@
        != seal.artifact_json@) {
        SealDecision::ArtifactDiffers
    } else {
        match seal.producer {
            None => SealDecision::Admitted,
            Some(p) => {
                if pr >= 0 {
                    if rec.task_id@ == seal.task_id@ && rec.attempt_id@ == p.attempt_id@ && rec.workspace_revision_id@
                        == bound_revision_id(s, seal, fresh) && rec.artifact_digest@ == seal.artifact_digest@ {
                        SealDecision::Admitted
                    } else {
                        SealDecision::ProductionDiffers
                    }
                } else {
                    let ti = find_last(s.attempts@, attempt_key(), p.attempt_id@);
                    if ti >= 0 && s.attempts@[ti].run_id@ == seal.authority.run_id@ {
                        SealDecision::Admitted
                    } else {
                        SealDecision::AttemptForeign
                    }
                }
            },
        }
    }
}

/// The error a refusal owes.
pub open spec fn seal_refused(seal: SealedChangeset, d: SealDecision, e: StoreError) -> bool {
    match d {
        SealDecision::WorkspaceMissing => e matches StoreError::RevisionConflict { table, id, expected, actual }
            && table@ == "workspaces"@ && id@ == seal.workspace_id@ && expected == seal.fence_revision.value
            && actual is None,
        SealDecision::NotOwner | SealDecision::NotFrozen | SealDecision::FenceMoved | SealDecision::AuthorityGone => e matches StoreError::SealAuthorityInvalid { workspace_id, .. }
            && workspace_id@ == seal.workspace_id@,
        SealDecision::BlobTooLarge => e is InvariantViolated,
        SealDecision::BlobSizeConflict(d) => e matches StoreError::ContentIdentityConflict { table, id, .. }
            && table@ == "blobs"@ && id@ == bytes_hex(d@),
        SealDecision::RevisionIdTaken => e is ConstraintViolated,
        SealDecision::ArtifactDiffers => e matches StoreError::ContentIdentityConflict { table, id, .. }
            && table@ == "artifacts"@ && id@ == bytes_hex(seal.artifact_digest@),
        SealDecision::ProductionDiffers => e matches StoreError::ContentIdentityConflict { table, .. }
            && table@ == "production_records"@,
        SealDecision::AttemptForeign => e is ConstraintViolated,
        SealDecision::Admitted => false,
    }
}

/// An admitted publication's effect: Blobs stored or verified, the
/// checkpoint reused or created under `fresh`, the Artifact reused or
/// created, its members recorded, and the production provenance bound.
pub open spec fn seal_published(before: Store, after: Store, seal: SealedChangeset, fresh: Seq<char>, value: SealOutcome) -> bool {
    let ci = find_last(before.workspace_revisions@, checkpoint_key(), (seal.workspace_id@, seal.revision_state_digest@));
    let ai = find_last(before.artifacts@, artifact_key(), seal.artifact_digest@);
    let pr = find_last(before.production_records@, production_key(), (seal.authority.run_id@, seal.output_slot@));
    &&& value.workspace_revision_id@ == bound_revision_id(before, seal, fresh)
    &&& value.artifact_reused == (ai >= 0)
    &&& merge_blobs(before.blobs@, seal.members@) == BlobMerge::Merged(after.blobs@)
    &&& if ci >= 0 {
        after.workspace_revisions == before.workspace_revisions
    } else {
        let row = after.workspace_revisions@.last();
        &&& after.workspace_revisions@.len() == before.workspace_revisions@.len() + 1
        &&& after.workspace_revisions@.drop_last() == before.workspace_revisions@
        &&& row.id@ == fresh && row.workspace_id@ == seal.workspace_id@ && row.repository@ == seal.repository@
        &&& row.resolved_base@ == seal.resolved_base@ && row.state_digest == seal.revision_state_digest
        &&& row.canonical_json@ == seal.revision_state_json@
    }
    &&& if ai >= 0 {
        after.artifacts == before.artifacts
    } else {
        let row = after.artifacts@.last();
        &&& after.artifacts@.len() == before.artifacts@.len() + 1
        &&& after.artifacts@.drop_last() == before.artifacts@
        &&& row.digest == seal.artifact_digest && row.kind@ == changeset_kind()
        &&& row.canonical_json@ == seal.artifact_json@
    }
    &&& after.artifact_members@ == merge_members(before.artifact_members@, seal.artifact_digest, seal.members@)
    &&& match seal.producer {
        Some(p) if pr < 0 => {
            let row = after.production_records@.last();
            &&& after.production_records@.len() == before.production_records@.len() + 1
            &&& after.production_records@.drop_last() == before.production_records@
            &&& row.run_id@ == seal.authority.run_id@ && row.output_slot@ == seal.output_slot@
            &&& row.task_id@ == seal.task_id@ && row.attempt_id@ == p.attempt_id@
            &&& row.workspace_revision_id@ == bound_revision_id(before, seal, fresh)
            &&& row.artifact_digest == seal.artifact_digest
        },
        _ => after.production_records == before.production_records,
    }
}

impl Store {
    /// Publishes a sealed changeset under the command kernel, binding a new
    /// checkpoint, if one is needed, to `fresh_revision_id`.
    ///
    /// The Workspace must still be owned by the Task and frozen at the fence
    /// revision, and the claimed Run authority must still hold; every Blob
    /// is stored or verified against its size, the checkpoint and the
    /// Artifact are reused when their content identity already exists and
    /// created otherwise, and the production provenance is bound or verified.
    /// Nothing is written on any refusal.
    pub fn publish_changeset_seal(&mut self, command: &Command, seal: &SealedChangeset, fresh_revision_id: &str) -> (r:
        Result<Committed<SealOutcome>, StoreError>)
        requires
            old(self).wf(),
        ensures
            final(self).wf(),
            gate_outcome(*old(self), *final(self), *command, r),
            class_of(*old(self), *command) is Fresh ==> match seal_decision(*old(self), *seal, fresh_revision_id@) {
                SealDecision::Admitted => {
                    &&& r matches Ok(Committed::Executed { value, cursor })
                    &&& seal_published(*old(self), *final(self), *seal, fresh_revision_id@, value)
                    &&& command_recorded(*old(self), *final(self), *command, cursor)
                    &&& (Store {
                        blobs: old(self).blobs,
                        workspace_revisions: old(self).workspace_revisions,
                        artifacts: old(self).artifacts,
                        artifact_members: old(self).artifact_members,
                        production_records: old(self).production_records,
                        events: old(self).events,
                        next_sequence: old(self).next_sequence,
                        commands: old(self).commands,
                        ..*final(self)
                    }) == *old(self)
                },
                d => (r matches Err(e) && seal_refused(*seal, d, e)) && *final(self) == *old(self),
            },
    {
        match self.command_gate(command) {
            Err(e) => return Err(e),
            Ok(Gate::Replayed { cursor, recorded_at }) => {
                return Ok(Committed::Replayed { cursor, recorded_at });
            },
            Ok(Gate::Fresh) => {},
        }
        let ghost before = *self;
        let value = match self.apply_seal(seal, fresh_revision_id) {
            Ok(v) => v,
            Err(e) => return Err(e),
        };
        let ghost mid = *self;
        assert(class_of(mid, *command) is Fresh) by {
            assert(mid.commands == before.commands);
            assert(mid.restore_generation == before.restore_generation);
            assert(mid.next_sequence == before.next_sequence);
        }
        let cursor = self.record_command(command);
        Ok(Committed::Executed { value, cursor })
    }

    /// Publishes a sealed changeset under the command kernel; a checkpoint
    /// created for new Workspace state takes a fresh unpredictable id.
    pub fn commit_changeset_seal(&mut self, command: &Command, seal: &SealedChangeset) -> (r: Result<
        Committed<SealOutcome>,
        StoreError,
    >)
        requires
            old(self).wf(),
        ensures
            final(self).wf(),
            gate_outcome(*old(self), *final(self), *command, r),
            class_of(*old(self), *command) is Fresh ==> exists|fresh: Seq<char>|
                #![trigger seal_decision(*old(self), *seal, fresh)]
                fresh.len() == 32 && match seal_decision(*old(self), *seal, fresh) {
                    SealDecision::Admitted => {
                        &&& r matches Ok(Committed::Executed { value, cursor })
                        &&& seal_published(*old(self), *final(self), *seal, fresh, value)
                        &&& command_recorded(*old(self), *final(self), *command, cursor)
                        &&& (Store {
                            blobs: old(self).blobs,
                            workspace_revisions: old(self).workspace_revisions,
                            artifacts: old(self).artifacts,
                            artifact_members: old(self).artifact_members,
                            production_records: old(self).production_records,
                            events: old(self).events,
                            next_sequence: old(self).next_sequence,
                            commands: old(self).commands,
                            ..*final(self)
                        }) == *old(self)
                    },
                    d => (r matches Err(e) && seal_refused(*seal, d, e)) && *final(self) == *old(self),
                },
    {
        let fresh = crate::clock::random_hex_id();
        let r = self.publish_changeset_seal(command, seal, fresh.as_str());
        proof {
            let _ = seal_decision(*old(self), *seal, fresh@);
        }
        r
    }
}

impl Store {
    fn apply_seal(&mut self, seal: &SealedChangeset, fresh: &str) -> (r: Result<SealOutcome, StoreError>)
        requires
            old(self).wf(),
        ensures
            final(self).wf(),
            match seal_decision(*old(self), *seal, fresh@) {
                SealDecision::Admitted => {
                    &&& r matches Ok(value)
                    &&& seal_published(*old(self), *final(self), *seal, fresh@, value)
                    &&& (Store {
                        blobs: old(self).blobs,
                        workspace_revisions: old(self).workspace_revisions,
                        artifacts: old(self).artifacts,
                        artifact_members: old(self).artifact_members,
                        production_records: old(self).production_records,
                        ..*final(self)
                    }) == *old(self)
                },
                d => (r matches Err(e) && seal_refused(*seal, d, e)) && *final(self) == *old(self),
            },
    {
        let ghost before = *self;
        // ---- Authority revalidation, before any write. ----
        let wi: usize = match find_workspace(&self.workspaces, seal.workspace_id) {
            None => {
                return Err(
                    StoreError::RevisionConflict {
                        table: "workspaces",
                        id: seal.workspace_id.to_owned(),
                        expected: seal.fence_revision.value,
                        actual: None,
                    },
                );
            },
            Some(i) => i,
        };
        let w = &self.workspaces[wi];
        if !str_eq(w.task_id.as_str(), seal.task_id) {
            return Err(
                StoreError::SealAuthorityInvalid {
                    workspace_id: seal.workspace_id.to_owned(),
                    detail: "the workspace is owned by another Task".to_string(),
                },
            );
        }
        if !str_eq(w.phase.as_str(), "Frozen") {
            return Err(
                StoreError::SealAuthorityInvalid {
                    workspace_id: seal.workspace_id.to_owned(),
                    detail: "the freeze did not hold".to_string(),
                },
            );
        }
        if w.revision != seal.fence_revision.value {
            return Err(
                StoreError::SealAuthorityInvalid {
                    workspace_id: seal.workspace_id.to_owned(),
                    detail: "the freeze moved".to_string(),
                },
            );
        }
        if !self.check_seal_authority(seal) {
            return Err(
                StoreError::SealAuthorityInvalid {
                    workspace_id: seal.workspace_id.to_owned(),
                    detail: "the claimed Run no longer carries seal authority".to_string(),
                },
            );
        }
        // ---- Blobs: verify or create, on a working copy. ----
        let mut blobs: Vec<BlobRow> = Vec::new();
        let mut k: usize = 0;
        while k < self.blobs.len()
            invariant
                k <= self.blobs@.len(),
                blobs@ == self.blobs@.take(k as int),
            decreases self.blobs@.len() - k,
        {
            blobs.push(BlobRow { digest: self.blobs[k].digest, size: self.blobs[k].size });
            proof {
                assert(self.blobs@.take(k as int + 1) =~= self.blobs@.take(k as int).push(self.blobs@[k as int]));
            }
            k = k + 1;
        }
        proof {
            assert(self.blobs@.take(k as int) =~= self.blobs@);
            assert(seal.members@.take(0) =~= Seq::<([u8; 32], u64)>::empty());
        }
        let mut i: usize = 0;
        while i < seal.members.len()
            invariant
                *self == before,
                before.wf(),
                seal_fence_holds(before, *seal),
                seal_authority_holds(before, *seal),
                i <= seal.members@.len(),
                merge_blobs(before.blobs@, seal.members@.take(i as int)) == BlobMerge::Merged(blobs@),
                unique_by(blobs@, blob_key()),
            decreases seal.members@.len() - i,
        {
            let (d, size) = seal.members[i];
            proof {
                let t = seal.members@.take(i as int + 1);
                assert(t.drop_last() =~= seal.members@.take(i as int));
                assert(t.last() == seal.members@[i as int]);
            }
            if size > 0x7fff_ffff_ffff_ffff {
                proof {
                    let t = seal.members@.take(i as int + 1);
                    assert(merge_blobs(before.blobs@, t) == BlobMerge::TooLarge);
                    lemma_merge_blobs_fails(before.blobs@, seal.members@, i as int + 1);
                }
                return Err(StoreError::InvariantViolated("a blob size exceeds what can be stored".to_string()));
            }
            match find_blob(&blobs, &d) {
                Some(j) => {
                    if blobs[j].size != size as i64 {
                        proof {
                            let t = seal.members@.take(i as int + 1);
                            assert(merge_blobs(before.blobs@, t) == BlobMerge::SizeConflict(d));
                            lemma_merge_blobs_fails(before.blobs@, seal.members@, i as int + 1);
                        }
                        return Err(
                            StoreError::ContentIdentityConflict {
                                table: "blobs",
                                id: digest_hex(&d),
                                detail: "the stored size disagrees with the published one".to_string(),
                            },
                        );
                    }
                },
                None => {
                    let row = BlobRow { digest: d, size: size as i64 };
                    proof {
                        lemma_find_last(blobs@, blob_key(), d@);
                        lemma_unique_push(blobs@, blob_key(), row);
                    }
                    blobs.push(row);
                },
            }
            i = i + 1;
        }
        proof {
            assert(seal.members@.take(i as int) =~= seal.members@);
        }
        // ---- The checkpoint: reuse verified, create once. ----
        let ci = find_checkpoint(&self.workspace_revisions, seal.workspace_id, &seal.revision_state_digest);
        proof {
            lemma_find_last(self.workspace_revisions@, checkpoint_key(), (seal.workspace_id@, seal.revision_state_digest@));
        }
        if ci.is_none() && has_revision_id(&self.workspace_revisions, fresh) {
            return Err(StoreError::ConstraintViolated("the drawn checkpoint id is already taken".to_string()));
        }
        let revision_id: String = match ci {
            Some(c) => self.workspace_revisions[c].id.clone(),
            None => fresh.to_owned(),
        };
        // ---- The Artifact: reuse verified, create once. ----
        let ai = find_artifact(&self.artifacts, &seal.artifact_digest);
        let reused: bool = match ai {
            Some(a) => {
                if !str_eq(self.artifacts[a].kind.as_str(), "code.changeset") || !str_eq(
                    self.artifacts[a].canonical_json.as_str(),
                    seal.artifact_json,
                ) {
                    return Err(
                        StoreError::ContentIdentityConflict {
                            table: "artifacts",
                            id: digest_hex(&seal.artifact_digest),
                            detail: "an artifact with this digest holds a different manifest".to_string(),
                        },
                    );
                }
                true
            },
            None => false,
        };
        // ---- Production provenance: verify or bind. ----
        let run_id = seal.authority.run_id.as_str();
        let pr = find_production(&self.production_records, run_id, seal.output_slot);
        let bind_production: bool = match seal.producer {
            None => false,
            Some(p) => {
                match pr {
                    Some(x) => {
                        let rec = &self.production_records[x];
                        if !(str_eq(rec.task_id.as_str(), seal.task_id) && str_eq(rec.attempt_id.as_str(), p.attempt_id)
                            && str_eq(rec.workspace_revision_id.as_str(), revision_id.as_str()) && bytes_eq(
                            rec.artifact_digest.as_slice(),
                            seal.artifact_digest.as_slice(),
                        )) {
                            return Err(
                                StoreError::ContentIdentityConflict {
                                    table: "production_records",
                                    id: run_id.to_owned(),
                                    detail: "the run already produced different content for this output slot".to_string(),
                                },
                            );
                        }
                        false
                    },
                    None => {
                        let owned: bool = match crate::execution::find_attempt(&self.attempts, p.attempt_id) {
                            Some(t) => str_eq(self.attempts[t].run_id.as_str(), run_id),
                            None => false,
                        };
                        if !owned {
                            return Err(
                                StoreError::ConstraintViolated(
                                    "the producing Attempt does not belong to the sealing Run".to_string(),
                                ),
                            );
                        }
                        true
                    },
                }
            },
        };
        // ---- Every precondition holds: write. ----
        self.blobs = blobs;
        if ci.is_none() {
            let row = WorkspaceRevisionRow {
                id: fresh.to_owned(),
                workspace_id: seal.workspace_id.to_owned(),
                repository: seal.repository.to_owned(),
                resolved_base: seal.resolved_base.to_owned(),
                state_digest: seal.revision_state_digest,
                canonical_json: seal.revision_state_json.to_owned(),
            };
            proof {
                lemma_unique_push(self.workspace_revisions@, workspace_revision_key(), row);
                lemma_unique_push(self.workspace_revisions@, checkpoint_key(), row);
            }
            self.workspace_revisions.push(row);
            proof {
                assert(self.workspace_revisions@.drop_last() =~= before.workspace_revisions@);
            }
        }
        if ai.is_none() {
            let row = ArtifactRecord {
                digest: seal.artifact_digest,
                kind: "code.changeset".to_string(),
                canonical_json: seal.artifact_json.to_owned(),
            };
            proof {
                lemma_find_last(self.artifacts@, artifact_key(), seal.artifact_digest@);
                lemma_unique_push(self.artifacts@, artifact_key(), row);
                reveal_strlit("code.changeset");
            }
            self.artifacts.push(row);
            proof {
                assert(self.artifacts@.drop_last() =~= before.artifacts@);
            }
        }
        let mut m: usize = 0;
        proof {
            assert(seal.members@.take(0) =~= Seq::<([u8; 32], u64)>::empty());
        }
        let ghost pre = *self;
        while m < seal.members.len()
            invariant
                m <= seal.members@.len(),
                pre.artifact_members == before.artifact_members,
                self.artifact_members@ == merge_members(before.artifact_members@, seal.artifact_digest, seal.members@.take(m as int)),
                unique_by(self.artifact_members@, member_key()),
                (Store { artifact_members: pre.artifact_members, ..*self }) == pre,
            decreases seal.members@.len() - m,
        {
            let (d, _size) = seal.members[m];
            proof {
                let t = seal.members@.take(m as int + 1);
                assert(t.drop_last() =~= seal.members@.take(m as int));
                assert(t.last() == seal.members@[m as int]);
            }
            if !has_member(&self.artifact_members, &seal.artifact_digest, &d) {
                let row = ArtifactMemberRow { artifact_digest: seal.artifact_digest, blob_digest: d };
                proof {
                    lemma_unique_push(self.artifact_members@, member_key(), row);
                }
                self.artifact_members.push(row);
            }
            m = m + 1;
        }
        proof {
            assert(seal.members@.take(m as int) =~= seal.members@);
        }
        if bind_production {
            let p = seal.producer.unwrap();
            let row = ProductionRecord {
                run_id: run_id.to_owned(),
                output_slot: seal.output_slot.to_owned(),
                task_id: seal.task_id.to_owned(),
                attempt_id: p.attempt_id.to_owned(),
                workspace_revision_id: revision_id.clone(),
                artifact_digest: seal.artifact_digest,
            };
            proof {
                lemma_find_last(self.production_records@, production_key(), (run_id@, seal.output_slot@));
                lemma_unique_push(self.production_records@, production_key(), row);
            }
            self.production_records.push(row);
            proof {
                assert(self.production_records@.drop_last() =~= before.production_records@);
            }
        }
        Ok(SealOutcome { workspace_revision_id: revision_id, artifact_reused: reused })
    }
}

impl Store {
    /// One stored Artifact by its content digest.
    pub fn artifact(&self, digest: &[u8; 32]) -> (r: Result<Option<ArtifactRecord>, StoreError>)
        ensures
            ({
                let i = find_last(self.artifacts@, artifact_key(), digest@);
                r == Ok::<Option<ArtifactRecord>, StoreError>(if i >= 0 { Some(self.artifacts@[i]) } else { None })
            }),
    {
        match find_artifact(&self.artifacts, digest) {
            Some(i) => {
                let a = &self.artifacts[i];
                Ok(Some(ArtifactRecord { digest: a.digest, kind: a.kind.clone(), canonical_json: a.canonical_json.clone() }))
            },
            None => Ok(None),
        }
    }
}

} // verus!
