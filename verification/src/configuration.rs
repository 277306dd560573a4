//! Durable configuration authority: immutable revisions, content-addressed
//! components, and the one active pointer.
//!
//! Activation is one command-kernel transaction: the components are inserted
//! where not already stored, the immutable revision row is appended at the
//! next activation sequence, the pointer moves by an ordinary revisioned CAS,
//! and the command's Event and ledger row are recorded. A failure leaves the
//! previous revision completely authoritative.

use vstd::prelude::*;
use vstd::string::StringExecFns;

use crate::command::{class_of, command_recorded, gate_outcome, Command, CommandClass, Committed, Gate};
use crate::error::StoreError;
use crate::revision::Revision;
use crate::store::Store;
use crate::table::{has_key, lemma_unique_push, unique_by};
use crate::text::{bytes_eq, str_eq};

verus! {

/// The per-domain component digests a revision binds.
#[derive(Debug, Clone, Copy, PartialEq, Eq)]
pub struct ComponentDigests {
    pub agents: [u8; 32],
    pub routing: [u8; 32],
    pub execution_profile: [u8; 32],
    pub evaluator_registry: [u8; 32],
    pub context_policy: [u8; 32],
    pub authorization: [u8; 32],
}

impl ComponentDigests {
    /// The six digests, in domain order.
    pub open spec fn all(self) -> Seq<[u8; 32]> {
        seq![
            self.agents,
            self.routing,
            self.execution_profile,
            self.evaluator_registry,
            self.context_policy,
            self.authorization,
        ]
    }
}

/// One content-addressed configuration component.
#[derive(Debug, Clone, PartialEq, Eq)]
pub struct ConfigurationComponent {
    pub digest: [u8; 32],
    /// One of `agents`, `routing`, `executionProfiles`, `evaluators`,
    /// `context`, `authorization`.
    pub domain: String,
    pub canonical_json: String,
}

impl ConfigurationComponent {
    /// An equal copy of this component.
    pub fn copy(&self) -> (r: ConfigurationComponent)
        ensures
            r == *self,
    {
        ConfigurationComponent {
            digest: self.digest,
            domain: self.domain.clone(),
            canonical_json: self.canonical_json.clone(),
        }
    }
}

/// A compiled configuration, as the compiler hands it to the store: its
/// component records, the digest of each domain's component, the revision
/// identity over them, and the compiler version that produced it.
#[derive(Debug, Clone, PartialEq, Eq)]
pub struct CompiledConfiguration {
    pub components: Vec<ConfigurationComponent>,
    pub component_digests: ComponentDigests,
    pub revision_digest: [u8; 32],
    pub compiler_version: String,
}

/// One immutable revision row.
#[derive(Debug, Clone, PartialEq, Eq)]
pub struct ConfigurationRevisionRow {
    pub activation_sequence: i64,
    pub content_digest: [u8; 32],
    pub compiler_version: String,
    pub source_set_digest: [u8; 32],
    pub components: ComponentDigests,
    pub recorded_at: i64,
}

/// The singleton active-configuration pointer row.
#[derive(Debug, Clone, Copy, PartialEq, Eq)]
pub struct ActivePointerRow {
    pub revision: Revision,
    /// `None` until a fresh installation activates its first revision.
    pub activation_sequence: Option<i64>,
}

/// The identity of the active configuration.
#[derive(Debug, Clone, PartialEq, Eq)]
pub struct ActiveConfiguration {
    /// Historical activation identity. Monotonic; re-activating identical
    /// content produces a later sequence.
    pub activation_sequence: i64,
    /// Semantic content identity.
    pub content_digest: [u8; 32],
    /// The per-domain digests an immutable decision may bind.
    pub components: ComponentDigests,
    /// Provenance of the source set this revision was compiled from.
    pub source_set_digest: [u8; 32],
    /// The pointer row's revision, for the next activation's CAS.
    pub pointer_revision: Revision,
}

/// The pointer state, including that of an installation with no
/// configuration yet.
#[derive(Debug, Clone, PartialEq, Eq)]
pub struct ConfigurationPointer {
    pub active: Option<ActiveConfiguration>,
    /// The pointer revision, present whether or not anything is active.
    pub revision: Revision,
}

pub open spec fn component_key() -> spec_fn(ConfigurationComponent) -> Seq<u8> {
    |c: ConfigurationComponent| c.digest@
}

pub open spec fn revision_key() -> spec_fn(ConfigurationRevisionRow) -> i64 {
    |r: ConfigurationRevisionRow| r.activation_sequence
}

/// Whether a component with digest `d` is stored.
pub open spec fn component_stored(components: Seq<ConfigurationComponent>, d: [u8; 32]) -> bool {
    has_key(components, component_key(), d@)
}

/// The stored components after inserting `incoming` in order, where an
/// incoming digest that is already stored is left alone.
pub open spec fn merged(existing: Seq<ConfigurationComponent>, incoming: Seq<ConfigurationComponent>) -> Seq<
    ConfigurationComponent,
>
    decreases incoming.len(),
{
    if incoming.len() == 0 {
        existing
    } else {
        let before = merged(existing, incoming.drop_last());
        if component_stored(before, incoming.last().digest) {
            before
        } else {
            before.push(incoming.last())
        }
    }
}

/// The largest activation sequence recorded, or zero.
pub open spec fn max_activation(rows: Seq<ConfigurationRevisionRow>) -> int
    decreases rows.len(),
{
    if rows.len() == 0 {
        0
    } else {
        let rest = max_activation(rows.drop_last());
        if rows.last().activation_sequence > rest {
            rows.last().activation_sequence as int
        } else {
            rest
        }
    }
}

/// The revision row with activation sequence `s`.
pub open spec fn revision_at(rows: Seq<ConfigurationRevisionRow>, s: i64) -> ConfigurationRevisionRow {
    rows[choose|i: int| 0 <= i < rows.len() && #[trigger] rows[i].activation_sequence == s]
}

/// What the pointer reports over a state: nothing active, or the revision it
/// names.
pub open spec fn active_view(s: Store) -> Option<ActiveConfiguration> {
    match s.active_configuration.activation_sequence {
        None => None,
        Some(seq) => {
            let row = revision_at(s.configuration_revisions@, seq);
            Some(
                ActiveConfiguration {
                    activation_sequence: seq,
                    content_digest: row.content_digest,
                    components: row.components,
                    source_set_digest: row.source_set_digest,
                    pointer_revision: s.active_configuration.revision,
                },
            )
        },
    }
}

/// The domain each position of `ComponentDigests::all` is compiled as.
pub open spec fn domain_name(k: int) -> Seq<char> {
    if k == 0 {
        "agents"@
    } else if k == 1 {
        "routing"@
    } else if k == 2 {
        "executionProfiles"@
    } else if k == 3 {
        "evaluators"@
    } else if k == 4 {
        "context"@
    } else {
        "authorization"@
    }
}

/// Whether a component with digest `d` is stored under domain `domain`.
pub open spec fn stored_as(components: Seq<ConfigurationComponent>, d: [u8; 32], domain: Seq<char>) -> bool {
    exists|i: int| 0 <= i < components.len() && (#[trigger] components[i]).digest@ == d@ && components[i].domain@ == domain
}

/// Whether every component a revision binds is stored under the domain the
/// revision uses it as.
pub open spec fn components_verified(components: Seq<ConfigurationComponent>, bound: ComponentDigests) -> bool {
    forall|k: int| 0 <= k < 6 ==> stored_as(components, #[trigger] bound.all()[k], domain_name(k))
}

/// Whether the pointer names nothing, or a revision whose components are all
/// stored as what the revision uses them as.
pub open spec fn pointer_verified(s: Store) -> bool {
    match s.active_configuration.activation_sequence {
        None => true,
        Some(seq) => components_verified(
            s.configuration_components@,
            revision_at(s.configuration_revisions@, seq).components,
        ),
    }
}

/// The component of domain `evaluators` the active revision binds.
pub open spec fn active_evaluator_component(s: Store) -> Option<ConfigurationComponent> {
    match s.active_configuration.activation_sequence {
        None => None,
        Some(seq) => {
            let d = revision_at(s.configuration_revisions@, seq).components.evaluator_registry;
            let cs = s.configuration_components@;
            Some(cs[choose|i: int| 0 <= i < cs.len() && (#[trigger] cs[i]).digest@ == d@])
        },
    }
}

/// The configuration family's invariants: components are keyed by digest,
/// revisions by a positive activation sequence, every revision's components
/// are stored, and the pointer names a recorded revision.
pub closed spec fn configuration_wf(
    components: Seq<ConfigurationComponent>,
    revisions: Seq<ConfigurationRevisionRow>,
    pointer: ActivePointerRow,
) -> bool {
    &&& unique_by(components, component_key())
    &&& unique_by(revisions, revision_key())
    &&& pointer.revision.value >= 1
    &&& forall|i: int|
        0 <= i < revisions.len() ==> {
            &&& 1 <= (#[trigger] revisions[i]).activation_sequence
            &&& forall|k: int|
                0 <= k < 6 ==> component_stored(components, #[trigger] revisions[i].components.all()[k])
        }
    &&& match pointer.activation_sequence {
        None => true,
        Some(seq) => exists|i: int| 0 <= i < revisions.len() && #[trigger] revisions[i].activation_sequence == seq,
    }
}

/// A fresh installation's configuration family is well formed: nothing
/// stored, and a pointer at its first revision naming nothing.
pub proof fn lemma_fresh_configuration_wf()
    ensures
        configuration_wf(
            Seq::empty(),
            Seq::empty(),
            ActivePointerRow { revision: Revision { value: 1 }, activation_sequence: None },
        ),
{
}

/// In a well-formed configuration family, the revision found at an index is
/// the revision of its activation sequence.
pub proof fn lemma_revision_at(
    components: Seq<ConfigurationComponent>,
    revisions: Seq<ConfigurationRevisionRow>,
    pointer: ActivePointerRow,
    i: int,
)
    requires
        configuration_wf(components, revisions, pointer),
        0 <= i < revisions.len(),
    ensures
        revision_at(revisions, revisions[i].activation_sequence) == revisions[i],
{
    let s = revisions[i].activation_sequence;
    let c = choose|j: int| 0 <= j < revisions.len() && #[trigger] revisions[j].activation_sequence == s;
    assert((revision_key())(revisions[c]) == (revision_key())(revisions[i]));
}

impl Store {
    /// The configuration family's invariants over this state.
    pub open spec fn configuration_wf(&self) -> bool {
        configuration_wf(self.configuration_components@, self.configuration_revisions@, self.active_configuration)
    }
}

/// Whether a component with digest `d` is stored, and where.
pub(crate) fn find_component(rows: &Vec<ConfigurationComponent>, d: &[u8; 32]) -> (r: Option<usize>)
    ensures
        match r {
            Some(i) => i < rows@.len() && rows@[i as int].digest@ == d@,
            None => !component_stored(rows@, *d),
        },
{
    let mut i: usize = 0;
    while i < rows.len()
        invariant
            i <= rows@.len(),
            forall|j: int| 0 <= j < i ==> (#[trigger] rows@[j]).digest@ != d@,
        decreases rows@.len() - i,
    {
        if bytes_eq(rows[i].digest.as_slice(), d.as_slice()) {
            return Some(i);
        }
        i = i + 1;
    }
    proof {
        if component_stored(rows@, *d) {
            let j = choose|j: int| 0 <= j < rows@.len() && (component_key())(#[trigger] rows@[j]) == d@;
            assert(rows@[j].digest@ == d@);
        }
    }
    None
}

/// Where the revision with activation sequence `s` is.
pub(crate) fn find_revision(rows: &Vec<ConfigurationRevisionRow>, s: i64) -> (r: Option<usize>)
    ensures
        match r {
            Some(i) => i < rows@.len() && rows@[i as int].activation_sequence == s,
            None => forall|j: int| 0 <= j < rows@.len() ==> (#[trigger] rows@[j]).activation_sequence != s,
        },
{
    let mut i: usize = 0;
    while i < rows.len()
        invariant
            i <= rows@.len(),
            forall|j: int| 0 <= j < i ==> (#[trigger] rows@[j]).activation_sequence != s,
        decreases rows@.len() - i,
    {
        if rows[i].activation_sequence == s {
            return Some(i);
        }
        i = i + 1;
    }
    None
}

/// The largest activation sequence recorded, or zero.
fn max_activation_exec(rows: &Vec<ConfigurationRevisionRow>) -> (m: i64)
    ensures
        m == max_activation(rows@),
{
    let mut m: i64 = 0;
    let mut i: usize = 0;
    while i < rows.len()
        invariant
            i <= rows@.len(),
            m == max_activation(rows@.take(i as int)),
            m >= 0,
        decreases rows@.len() - i,
    {
        proof {
            assert(rows@.take(i as int + 1).drop_last() =~= rows@.take(i as int));
        }
        if rows[i].activation_sequence > m {
            m = rows[i].activation_sequence;
        }
        i = i + 1;
    }
    proof {
        assert(rows@.take(rows@.len() as int) =~= rows@);
    }
    m
}

/// Every recorded activation sequence is at most the maximum.
pub(crate) proof fn lemma_max_activation(rows: Seq<ConfigurationRevisionRow>)
    ensures
        max_activation(rows) >= 0,
        forall|i: int| 0 <= i < rows.len() ==> (#[trigger] rows[i]).activation_sequence <= max_activation(rows),
    decreases rows.len(),
{
    if rows.len() > 0 {
        lemma_max_activation(rows.drop_last());
        assert forall|i: int| 0 <= i < rows.len() implies (#[trigger] rows[i]).activation_sequence
            <= max_activation(rows) by {
            if i < rows.len() - 1 {
                assert(rows[i] == rows.drop_last()[i]);
            }
        }
    }
}

/// Merging keeps what was stored, keeps digests unique, and stores every
/// incoming digest.
proof fn lemma_merged(existing: Seq<ConfigurationComponent>, incoming: Seq<ConfigurationComponent>)
    requires
        unique_by(existing, component_key()),
    ensures
        unique_by(merged(existing, incoming), component_key()),
        merged(existing, incoming).len() >= existing.len(),
        forall|i: int| 0 <= i < existing.len() ==> merged(existing, incoming)[i] == #[trigger] existing[i],
        forall|d: [u8; 32]| #[trigger] component_stored(existing, d) ==> component_stored(merged(existing, incoming), d),
        forall|k: int| 0 <= k < incoming.len() ==> component_stored(merged(existing, incoming), #[trigger] incoming[k].digest),
    decreases incoming.len(),
{
    if incoming.len() > 0 {
        let front = incoming.drop_last();
        lemma_merged(existing, front);
        let before = merged(existing, front);
        let x = incoming.last();
        if !component_stored(before, x.digest) {
            lemma_unique_push(before, component_key(), x);
            assert forall|d: [u8; 32]| #[trigger] component_stored(before, d) implies component_stored(
                before.push(x),
                d,
            ) by {
                let j = choose|j: int| 0 <= j < before.len() && (component_key())(#[trigger] before[j]) == d@;
                assert(before.push(x)[j] == before[j]);
            }
        }
        assert forall|k: int| 0 <= k < incoming.len() implies component_stored(
            merged(existing, incoming),
            #[trigger] incoming[k].digest,
        ) by {
            if k < incoming.len() - 1 {
                assert(incoming[k] == front[k]);
            } else if component_stored(before, x.digest) {
            } else {
                let m = before.push(x);
                assert((component_key())(m[before.len() as int]) == x.digest@);
            }
        }
    }
}

/// Checks that the component with digest `d` is stored under `domain`.
fn verify_component(components: &Vec<ConfigurationComponent>, domain: &str, d: &[u8; 32]) -> (r: Result<
    (),
    StoreError,
>)
    requires
        unique_by(components@, component_key()),
    ensures
        r is Ok <==> stored_as(components@, *d, domain@),
        r is Err ==> r matches Err(StoreError::InvariantViolated(_)),
{
    match find_component(components, d) {
        None => {
            let mut detail: String = "the active configuration names a ".to_owned();
            detail.append(domain);
            detail.append(" component which is not stored");
            Err(StoreError::InvariantViolated(detail))
        },
        Some(i) => {
            if str_eq(components[i].domain.as_str(), domain) {
                Ok(())
            } else {
                proof {
                    if stored_as(components@, *d, domain@) {
                        let j = choose|j: int|
                            0 <= j < components@.len() && (#[trigger] components@[j]).digest@ == d@
                                && components@[j].domain@ == domain@;
                        assert((component_key())(components@[j]) == (component_key())(components@[i as int]));
                    }
                }
                let mut detail: String = "a component is stored as ".to_owned();
                detail.append(components[i].domain.as_str());
                detail.append(", but the revision uses it as ");
                detail.append(domain);
                Err(StoreError::InvariantViolated(detail))
            }
        },
    }
}

/// Checks every component a revision binds, domain by domain.
fn verify_components(components: &Vec<ConfigurationComponent>, bound: &ComponentDigests) -> (r: Result<
    (),
    StoreError,
>)
    requires
        unique_by(components@, component_key()),
    ensures
        r is Ok <==> components_verified(components@, *bound),
        r is Err ==> r matches Err(StoreError::InvariantViolated(_)),
{
    let ghost all = bound.all();
    proof {
        assert(all[0] == bound.agents && domain_name(0) == "agents"@);
        assert(all[1] == bound.routing && domain_name(1) == "routing"@);
        assert(all[2] == bound.execution_profile && domain_name(2) == "executionProfiles"@);
        assert(all[3] == bound.evaluator_registry && domain_name(3) == "evaluators"@);
        assert(all[4] == bound.context_policy && domain_name(4) == "context"@);
        assert(all[5] == bound.authorization && domain_name(5) == "authorization"@);
    }
    verify_component(components, "agents", &bound.agents)?;
    verify_component(components, "routing", &bound.routing)?;
    verify_component(components, "executionProfiles", &bound.execution_profile)?;
    verify_component(components, "evaluators", &bound.evaluator_registry)?;
    verify_component(components, "context", &bound.context_policy)?;
    verify_component(components, "authorization", &bound.authorization)?;
    proof {
        assert forall|k: int| 0 <= k < 6 implies stored_as(components@, #[trigger] all[k], domain_name(k)) by {
            if k == 0 {
                assert(all[k] == bound.agents);
            } else if k == 1 {
                assert(all[k] == bound.routing);
            } else if k == 2 {
                assert(all[k] == bound.execution_profile);
            } else if k == 3 {
                assert(all[k] == bound.evaluator_registry);
            } else if k == 4 {
                assert(all[k] == bound.context_policy);
            } else {
                assert(all[k] == bound.authorization);
            }
        }
    }
    Ok(())
}

impl Store {
    /// The installation's configuration pointer as stored: nothing active on
    /// a fresh installation, or the revision the pointer names.
    ///
    /// Every component the named revision binds is checked to be stored under
    /// the domain the revision uses it as: content addressing alone does not
    /// prove a component is used as what it was compiled as, so a component
    /// stored as anything else fails closed rather than being served as
    /// authority.
    pub fn configuration_pointer(&self) -> (r: Result<ConfigurationPointer, StoreError>)
        requires
            self.configuration_wf(),
        ensures
            pointer_verified(*self) ==> (r matches Ok(p) && p.active == active_view(*self) && p.revision
                == self.active_configuration.revision),
            !pointer_verified(*self) ==> r matches Err(StoreError::InvariantViolated(_)),
    {
        let revision = self.active_configuration.revision;
        let seq: i64 = match self.active_configuration.activation_sequence {
            None => {
                return Ok(ConfigurationPointer { active: None, revision });
            },
            Some(s) => s,
        };
        match find_revision(&self.configuration_revisions, seq) {
            None => Err(
                StoreError::InvariantViolated(
                    "the active configuration points at a revision that does not exist".to_string(),
                ),
            ),
            Some(i) => {
                let row = &self.configuration_revisions[i];
                proof {
                    let rows = self.configuration_revisions@;
                    let c = choose|j: int| 0 <= j < rows.len() && #[trigger] rows[j].activation_sequence == seq;
                    assert((revision_key())(rows[c]) == (revision_key())(rows[i as int]));
                }
                match verify_components(&self.configuration_components, &row.components) {
                    Err(e) => {
                        return Err(e);
                    },
                    Ok(()) => {},
                }
                Ok(
                    ConfigurationPointer {
                        active: Some(
                            ActiveConfiguration {
                                activation_sequence: seq,
                                content_digest: row.content_digest,
                                components: row.components,
                                source_set_digest: row.source_set_digest,
                                pointer_revision: revision,
                            },
                        ),
                        revision,
                    },
                )
            },
        }
    }

    /// The evaluators component of the active revision, as canonical JSON;
    /// `None` while nothing is active.
    pub fn active_evaluator_component_json(&self) -> (r: Result<Option<String>, StoreError>)
        requires
            self.configuration_wf(),
        ensures
            r matches Ok(json) && match active_evaluator_component(*self) {
                None => json is None,
                Some(c) => json matches Some(j) && j@ == c.canonical_json@,
            },
    {
        let seq: i64 = match self.active_configuration.activation_sequence {
            None => {
                return Ok(None);
            },
            Some(s) => s,
        };
        let i: usize = match find_revision(&self.configuration_revisions, seq) {
            None => {
                return Err(
                    StoreError::InvariantViolated(
                        "the active configuration points at a revision that does not exist".to_string(),
                    ),
                );
            },
            Some(i) => i,
        };
        let d: [u8; 32] = self.configuration_revisions[i].components.evaluator_registry;
        proof {
            let rows = self.configuration_revisions@;
            let c = choose|j: int| 0 <= j < rows.len() && #[trigger] rows[j].activation_sequence == seq;
            assert((revision_key())(rows[c]) == (revision_key())(rows[i as int]));
            assert(rows[i as int].components.all()[3] == d);
        }
        match find_component(&self.configuration_components, &d) {
            None => Err(
                StoreError::InvariantViolated(
                    "the active revision names an evaluators component that is not stored".to_string(),
                ),
            ),
            Some(k) => {
                proof {
                    let cs = self.configuration_components@;
                    let c = choose|j: int| 0 <= j < cs.len() && (#[trigger] cs[j]).digest@ == d@;
                    assert((component_key())(cs[c]) == (component_key())(cs[k as int]));
                }
                Ok(Some(self.configuration_components[k].canonical_json.clone()))
            },
        }
    }
}

/// The revision row an activation appends.
pub open spec fn activation_row(
    seq: int,
    compiled: CompiledConfiguration,
    source_set_digest: [u8; 32],
    recorded_at: i64,
) -> ConfigurationRevisionRow {
    ConfigurationRevisionRow {
        activation_sequence: seq as i64,
        content_digest: compiled.revision_digest,
        compiler_version: compiled.compiler_version,
        source_set_digest,
        components: compiled.component_digests,
        recorded_at,
    }
}

/// Whether every component digest the compiled configuration binds is among
/// its own component records or already stored.
pub open spec fn components_available(existing: Seq<ConfigurationComponent>, compiled: CompiledConfiguration) -> bool {
    forall|k: int|
        0 <= k < 6 ==> component_stored(
            merged(existing, compiled.components@),
            #[trigger] compiled.component_digests.all()[k],
        )
}

impl Store {
    /// Activates `compiled` as the new authoritative configuration, under
    /// the command kernel.
    ///
    /// The component inserts, the immutable revision row at the next
    /// activation sequence, the pointer CAS against
    /// `expected_pointer_revision`, the ledger row and the command's Event
    /// commit together; on any failure the previous revision stays
    /// authoritative and nothing changes. A revision may only bind components
    /// that end up stored, as the schema's references require.
    pub fn activate_configuration(
        &mut self,
        command: &Command,
        compiled: &CompiledConfiguration,
        source_set_digest: [u8; 32],
        expected_pointer_revision: Revision,
    ) -> (r: Result<Committed<ActiveConfiguration>, StoreError>)
        requires
            old(self).wf(),
        ensures
            final(self).wf(),
            gate_outcome(*old(self), *final(self), *command, r),
            class_of(*old(self), *command) is Fresh ==> {
                let next = max_activation(old(self).configuration_revisions@) + 1;
                let pointer = old(self).active_configuration;
                if next > i64::MAX {
                    r matches Err(StoreError::InvariantViolated(_)) && *final(self) == *old(self)
                } else if !components_available(old(self).configuration_components@, *compiled) {
                    r matches Err(StoreError::ConstraintViolated(_)) && *final(self) == *old(self)
                } else if pointer.revision != expected_pointer_revision {
                    (r matches Err(StoreError::RevisionConflict { table, id, expected, actual })
                        && table@ == "active_configuration"@ && id@ == "singleton"@
                        && expected == expected_pointer_revision.value
                        && actual == Some(pointer.revision.value) && *final(self) == *old(self))
                } else if pointer.revision.value >= i64::MAX {
                    r matches Err(StoreError::InvariantViolated(_)) && *final(self) == *old(self)
                } else {
                    let row = final(self).configuration_revisions@[old(self).configuration_revisions@.len() as int];
                    &&& r matches Ok(Committed::Executed { value, cursor })
                    &&& value == (ActiveConfiguration {
                        activation_sequence: next as i64,
                        content_digest: compiled.revision_digest,
                        components: compiled.component_digests,
                        source_set_digest,
                        pointer_revision: Revision { value: (pointer.revision.value + 1) as i64 },
                    })
                    &&& final(self).configuration_components@ == merged(
                        old(self).configuration_components@,
                        compiled.components@,
                    )
                    &&& final(self).configuration_revisions@ == old(self).configuration_revisions@.push(
                        activation_row(next, *compiled, source_set_digest, row.recorded_at),
                    )
                    &&& final(self).active_configuration == (ActivePointerRow {
                        revision: Revision { value: (pointer.revision.value + 1) as i64 },
                        activation_sequence: Some(next as i64),
                    })
                    &&& active_view(*final(self)) == Some(value)
                    &&& command_recorded(*old(self), *final(self), *command, cursor)
                    &&& (Store {
                        configuration_components: old(self).configuration_components,
                        configuration_revisions: old(self).configuration_revisions,
                        active_configuration: old(self).active_configuration,
                        events: old(self).events,
                        next_sequence: old(self).next_sequence,
                        commands: old(self).commands,
                        ..*final(self)
                    }) == *old(self)
                }
            },
    {
        match self.command_gate(command) {
            Err(e) => return Err(e),
            Ok(Gate::Replayed { cursor, recorded_at }) => {
                return Ok(Committed::Replayed { cursor, recorded_at });
            },
            Ok(Gate::Fresh) => {},
        }
        let ghost before = *self;
        proof {
            reveal(configuration_wf);
            lemma_max_activation(self.configuration_revisions@);
        }
        // Allocated on the one serialized writer, so no second activation
        // can claim the same sequence.
        let max: i64 = max_activation_exec(&self.configuration_revisions);
        if max >= i64::MAX {
            return Err(StoreError::InvariantViolated("could not allocate an activation sequence".to_string()));
        }
        let next: i64 = max + 1;

        // Components are content-addressed and immutable: one already stored
        // is left as it is.
        let mut components: Vec<ConfigurationComponent> = Vec::new();
        let mut k: usize = 0;
        while k < self.configuration_components.len()
            invariant
                *self == before,
                before.wf(),
                class_of(before, *command) is Fresh,
                max == max_activation(before.configuration_revisions@),
                max < i64::MAX,
                next == max + 1,
                k <= self.configuration_components@.len(),
                components@ == self.configuration_components@.take(k as int),
            decreases self.configuration_components@.len() - k,
        {
            components.push(self.configuration_components[k].copy());
            proof {
                assert(self.configuration_components@.take(k as int + 1) =~= self.configuration_components@.take(
                    k as int,
                ).push(self.configuration_components@[k as int]));
            }
            k = k + 1;
        }
        proof {
            assert(self.configuration_components@.take(k as int) =~= self.configuration_components@);
        }
        let mut i: usize = 0;
        while i < compiled.components.len()
            invariant
                *self == before,
                before.wf(),
                class_of(before, *command) is Fresh,
                max == max_activation(before.configuration_revisions@),
                max < i64::MAX,
                next == max + 1,
                i <= compiled.components@.len(),
                components@ == merged(before.configuration_components@, compiled.components@.take(i as int)),
            decreases compiled.components@.len() - i,
        {
            proof {
                assert(compiled.components@.take(i as int + 1).drop_last() =~= compiled.components@.take(i as int));
                assert(compiled.components@.take(i as int + 1).last() == compiled.components@[i as int]);
            }
            let c = &compiled.components[i];
            match find_component(&components, &c.digest) {
                Some(_) => {},
                None => {
                    components.push(c.copy());
                },
            }
            i = i + 1;
        }
        proof {
            assert(compiled.components@.take(i as int) =~= compiled.components@);
            lemma_merged(before.configuration_components@, compiled.components@);
        }

        // The schema's references: every bound component must be stored.
        let digests = compiled.component_digests;
        let stored: bool = find_component(&components, &digests.agents).is_some()
            && find_component(&components, &digests.routing).is_some()
            && find_component(&components, &digests.execution_profile).is_some()
            && find_component(&components, &digests.evaluator_registry).is_some()
            && find_component(&components, &digests.context_policy).is_some()
            && find_component(&components, &digests.authorization).is_some();
        proof {
            let all = digests.all();
            assert(all[0] == digests.agents && all[1] == digests.routing && all[2] == digests.execution_profile
                && all[3] == digests.evaluator_registry && all[4] == digests.context_policy && all[5]
                == digests.authorization);
        }
        if !stored {
            return Err(
                StoreError::ConstraintViolated(
                    "a configuration revision binds a component that is not stored".to_string(),
                ),
            );
        }

        // The pointer move is the moment the revision becomes authority: the
        // same revisioned CAS every other mutation uses.
        let current: i64 = self.active_configuration.revision.value;
        if current != expected_pointer_revision.value {
            return Err(
                StoreError::RevisionConflict {
                    table: "active_configuration",
                    id: "singleton".to_string(),
                    expected: expected_pointer_revision.value,
                    actual: Some(current),
                },
            );
        }
        if current >= i64::MAX {
            return Err(StoreError::InvariantViolated("the configuration pointer revision is exhausted".to_string()));
        }

        let recorded_at: i64 = crate::clock::unix_now();
        let row = ConfigurationRevisionRow {
            activation_sequence: next,
            content_digest: compiled.revision_digest,
            compiler_version: compiled.compiler_version.clone(),
            source_set_digest,
            components: digests,
            recorded_at,
        };
        let pointer_revision = Revision { value: current + 1 };
        self.configuration_components = components;
        self.configuration_revisions.push(row);
        self.active_configuration = ActivePointerRow {
            revision: pointer_revision,
            activation_sequence: Some(next),
        };
        proof {
            reveal(configuration_wf);
            let revs = self.configuration_revisions@;
            let last = revs.len() - 1;
            assert(revs.drop_last() =~= before.configuration_revisions@);
            assert(revs[last].activation_sequence == next);
            assert forall|a: int, c: int|
                0 <= a < revs.len() && 0 <= c < revs.len() && a != c implies (revision_key())(
                #[trigger] revs[a],
            ) != (revision_key())(#[trigger] revs[c]) by {
                if a == last {
                    assert(revs[c] == before.configuration_revisions@[c]);
                } else if c == last {
                    assert(revs[a] == before.configuration_revisions@[a]);
                } else {
                    assert(revs[a] == before.configuration_revisions@[a]);
                    assert(revs[c] == before.configuration_revisions@[c]);
                }
            }
            assert forall|a: int| 0 <= a < revs.len() implies {
                &&& 1 <= (#[trigger] revs[a]).activation_sequence
                &&& forall|k: int|
                    0 <= k < 6 ==> component_stored(
                        self.configuration_components@,
                        #[trigger] revs[a].components.all()[k],
                    )
            } by {
                if a < last {
                    assert(revs[a] == before.configuration_revisions@[a]);
                    assert forall|k: int| 0 <= k < 6 implies component_stored(
                        self.configuration_components@,
                        #[trigger] revs[a].components.all()[k],
                    ) by {
                        assert(component_stored(
                            before.configuration_components@,
                            before.configuration_revisions@[a].components.all()[k],
                        ));
                    }
                }
            }
            assert(revision_at(revs, next) == revs[last]) by {
                let w = choose|j: int| 0 <= j < revs.len() && #[trigger] revs[j].activation_sequence == next;
                assert((revision_key())(revs[w]) == (revision_key())(revs[last]));
            }
        }
        let value = ActiveConfiguration {
            activation_sequence: next,
            content_digest: compiled.revision_digest,
            components: digests,
            source_set_digest,
            pointer_revision,
        };
        let ghost mid = *self;
        assert(class_of(mid, *command) is Fresh) by {
            assert(mid.commands == before.commands);
        }
        let cursor = self.record_command(command);
        Ok(Committed::Executed { value, cursor })
    }
}

} // verus!
