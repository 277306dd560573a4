//! The ordered, append-only migration set and the decisions made over it.
//!
//! A database records `PRAGMA user_version` and an immutable, checksummed
//! `schema_migrations` row per applied migration. Before anything is applied
//! the recorded bookkeeping must be exactly the contiguous, checksum-matching
//! prefix that `user_version` claims, and a schema newer than any migration
//! this build knows fails closed without a write. Each pending migration then
//! applies in its own transaction together with its bookkeeping.

use vstd::prelude::*;
use vstd::string::StringSliceAdditionalSpecFns;

use crate::error::StoreError;
use crate::text::{append_hex_u64, hex16, str_eq};

verus! {

/// One migration: its version, its name, and the SQL it applies.
#[derive(Debug, Clone, Copy)]
pub struct Migration {
    pub version: i64,
    pub name: &'static str,
    pub sql: &'static str,
}

/// One row of `schema_migrations` as read back, in version order.
#[derive(Debug, Clone, PartialEq, Eq)]
pub struct AppliedMigration {
    pub version: i64,
    pub checksum: String,
}

/// The highest version of the production migration set.
pub open spec fn max_known_version() -> i64 {
    16
}

/// The version a database is migrated to: the highest version its
/// bookkeeping records, or 0 when it records none.
pub open spec fn applied_version(rows: Seq<AppliedMigration>) -> i64
    decreases rows.len(),
{
    if rows.len() == 0 {
        0
    } else {
        let rest = applied_version(rows.drop_last());
        if rows.last().version > rest {
            rows.last().version
        } else {
            rest
        }
    }
}

/// Reads the migrated version off the bookkeeping rows.
pub fn applied_version_of(rows: &Vec<AppliedMigration>) -> (v: i64)
    ensures
        v == applied_version(rows@),
{
    let mut v: i64 = 0;
    let mut i: usize = 0;
    while i < rows.len()
        invariant
            i <= rows@.len(),
            v == applied_version(rows@.subrange(0, i as int)),
        decreases rows@.len() - i,
    {
        assert(rows@.subrange(0, i + 1).drop_last() =~= rows@.subrange(0, i as int));
        if rows[i].version > v {
            v = rows[i].version;
        }
        i = i + 1;
    }
    assert(rows@.subrange(0, rows@.len() as int) =~= rows@);
    v
}

/// The bookkeeping of a database that applied the whole production set in
/// order: one row per migration, with its checksum.
pub fn apply_all() -> (rows: Vec<AppliedMigration>)
    ensures
        rows@.len() == max_known_version(),
        applied_version(rows@) == max_known_version(),
        forall|i: int| 0 <= i < rows@.len() ==> (#[trigger] rows@[i]).version == i + 1,
{
    let ms = migrations();
    let mut rows: Vec<AppliedMigration> = Vec::new();
    let mut i: usize = 0;
    while i < ms.len()
        invariant
            i <= ms@.len(),
            ms@.len() == max_known_version(),
            forall|k: int| 0 <= k < ms@.len() ==> (#[trigger] ms@[k]).version == k + 1,
            rows@.len() == i,
            forall|k: int| 0 <= k < i ==> (#[trigger] rows@[k]).version == k + 1,
            applied_version(rows@) == i,
        decreases ms@.len() - i,
    {
        let row = AppliedMigration { version: ms[i].version, checksum: checksum(ms[i].sql) };
        let ghost before = rows@;
        rows.push(row);
        assert(rows@.drop_last() =~= before);
        i = i + 1;
    }
    rows
}

/// The highest version of the production migration set.
pub fn latest_version() -> (v: i64)
    ensures
        v == max_known_version(),
{
    16
}

/// The production migration set, applied in ascending `version` order.
pub fn migrations() -> (ms: Vec<Migration>)
    ensures
        ms@.len() == max_known_version(),
        forall|i: int| 0 <= i < ms@.len() ==> (#[trigger] ms@[i]).version == i + 1,
{
    let mut migrations: Vec<Migration> = Vec::new();
    migrations.push(Migration {
        version: 1,
        name: "create_system_state",
        sql: "CREATE TABLE system_state (
            id INTEGER PRIMARY KEY CHECK (id = 1),
            restore_generation TEXT NOT NULL CHECK (length(restore_generation) = 32)
        ) STRICT;",
    });
    migrations.push(Migration {
        version: 2,
        name: "bootstrap_installation_identity",
        sql: "INSERT INTO system_state (id, restore_generation)
            SELECT 1, lower(hex(randomblob(16)))
            WHERE NOT EXISTS (SELECT 1 FROM system_state WHERE id = 1);",
    });
    migrations.push(Migration {
        version: 3,
        name: "create_command_and_journal_state",
        sql: "CREATE TABLE journal_epochs (
            epoch         TEXT    PRIMARY KEY CHECK (length(epoch) = 32),
            -- The singleton next-sequence allocator the Event Journal
            -- contract requires. Advanced inside the same write transaction
            -- that appends the Event, never from MAX()+1, AUTOINCREMENT or
            -- an in-process counter.
            next_sequence INTEGER NOT NULL CHECK (next_sequence >= 1),
            is_current    INTEGER NOT NULL CHECK (is_current IN (0, 1))
        ) STRICT;

        -- At most one current journal history, enforced by the database
        -- rather than by controller discipline.
        CREATE UNIQUE INDEX journal_epochs_one_current
            ON journal_epochs (is_current) WHERE is_current = 1;

        CREATE TABLE event_journal (
            event_id      TEXT    NOT NULL PRIMARY KEY CHECK (length(event_id) = 32),
            journal_epoch TEXT    NOT NULL REFERENCES journal_epochs(epoch),
            -- Ordering metadata within a journal history, not Event identity.
            sequence      INTEGER NOT NULL CHECK (sequence >= 1),
            event_type    TEXT    NOT NULL CHECK (length(event_type) BETWEEN 1 AND 128),
            recorded_at   INTEGER NOT NULL,
            -- Command causality provenance. `command_epoch` is the command's
            -- RestoreGeneration, never this row's journal epoch, and the pair
            -- is all-or-none. Deliberately not a foreign key: this immutable
            -- historical identity must not acquire a retention dependency on
            -- the mutable idempotency ledger.
            command_epoch TEXT,
            command_id    TEXT,
            CHECK ((command_epoch IS NULL) = (command_id IS NULL)),
            UNIQUE (journal_epoch, sequence)
        ) STRICT;

        CREATE TABLE commands (
            -- The commandEpoch is the installation RestoreGeneration in
            -- force when the command was accepted.
            command_epoch TEXT    NOT NULL CHECK (length(command_epoch) = 32),
            command_id    TEXT    NOT NULL CHECK (length(command_id) BETWEEN 1 AND 128),
            -- Non-sensitive request digest, supplied by the caller. This
            -- crate never hashes anything and never sees a request body.
            request_hash  BLOB    NOT NULL CHECK (length(request_hash) = 32),
            -- The durable result reference: where this command's Event
            -- landed in the journal. Deliberately not a foreign key. The
            -- Event Journal is retained and pruned on its own schedule, and
            -- a referential dependency in either direction would make
            -- pruning a journal row fail while a command still names it.
            -- The Event contract states the same rule for the opposite
            -- direction, and the reasoning is symmetric.
            journal_epoch TEXT    NOT NULL,
            sequence      INTEGER NOT NULL,
            recorded_at   INTEGER NOT NULL,
            PRIMARY KEY (command_epoch, command_id)
        ) STRICT;",
    });
    migrations.push(Migration {
        version: 4,
        name: "bootstrap_journal_epoch",
        sql: "INSERT INTO journal_epochs (epoch, next_sequence, is_current)
            SELECT lower(hex(randomblob(16))), 1, 1
            WHERE NOT EXISTS (SELECT 1 FROM journal_epochs WHERE is_current = 1);",
    });
    migrations.push(Migration {
        version: 5,
        name: "create_configuration_authority",
        sql: "CREATE TABLE configuration_components (
            -- Components are content-addressed and immutable: the same
            -- compiled component reached twice is the same row.
            digest         BLOB NOT NULL PRIMARY KEY CHECK (length(digest) = 32),
            domain         TEXT NOT NULL CHECK (domain IN (
                'agents', 'routing', 'executionProfiles',
                'evaluators', 'context', 'authorization')),
            canonical_json TEXT NOT NULL
        ) STRICT;

        CREATE TABLE configuration_revisions (
            -- Revision identity is historical activation identity, which is
            -- why the sequence is the key and the content digest is not:
            -- re-activating identical content is a new revision with a later
            -- sequence.
            activation_sequence       INTEGER NOT NULL PRIMARY KEY CHECK (activation_sequence >= 1),
            content_digest            BLOB NOT NULL CHECK (length(content_digest) = 32),
            compiler_version          TEXT NOT NULL,
            -- Provenance, never semantic identity.
            source_set_digest         BLOB NOT NULL CHECK (length(source_set_digest) = 32),
            agents_digest             BLOB NOT NULL REFERENCES configuration_components(digest),
            routing_digest            BLOB NOT NULL REFERENCES configuration_components(digest),
            execution_profile_digest  BLOB NOT NULL REFERENCES configuration_components(digest),
            evaluator_registry_digest BLOB NOT NULL REFERENCES configuration_components(digest),
            context_policy_digest     BLOB NOT NULL REFERENCES configuration_components(digest),
            authorization_digest      BLOB NOT NULL REFERENCES configuration_components(digest),
            recorded_at               INTEGER NOT NULL
        ) STRICT;

        CREATE TABLE active_configuration (
            -- One small pointer, as the contract requires. Singleton by
            -- constraint rather than by convention.
            id                  TEXT    NOT NULL PRIMARY KEY CHECK (id = 'singleton'),
            -- Carries a revision so activation is an ordinary revisioned CAS
            -- through the #17 primitive rather than a bespoke compare.
            revision            INTEGER NOT NULL CHECK (revision > 0),
            -- NULL until a fresh installation activates its first revision:
            -- that state is exactly \"not yet ready for authority-bearing
            -- work\", and is why it is nullable.
            activation_sequence INTEGER REFERENCES configuration_revisions(activation_sequence)
        ) STRICT;",
    });
    migrations.push(Migration {
        version: 6,
        name: "bootstrap_active_configuration_pointer",
        sql: "INSERT INTO active_configuration (id, revision, activation_sequence)
            SELECT 'singleton', 1, NULL
            WHERE NOT EXISTS (SELECT 1 FROM active_configuration WHERE id = 'singleton');",
    });
    migrations.push(Migration {
        version: 7,
        name: "create_goal_planning_and_task_graph",
        sql: "CREATE TABLE goals (
            id               TEXT    NOT NULL PRIMARY KEY,
            phase            TEXT    NOT NULL CHECK (phase IN (
                'Planning', 'Active', 'Evaluating', 'Finalizing',
                'Succeeded', 'Failed', 'Cancelled')),
            current_revision INTEGER NOT NULL CHECK (current_revision >= 1),
            -- Carries a revision so lifecycle transitions are ordinary
            -- revisioned CAS through the #17 primitive.
            revision         INTEGER NOT NULL CHECK (revision > 0),
            terminal_target  TEXT,
            created_at       INTEGER NOT NULL,
            -- Terminal-intent coherence: a crash cannot leave a Finalizing
            -- Goal whose intended outcome must be guessed, and a terminal
            -- Goal cannot retain a contradictory stale target.
            CHECK (
                (phase IN ('Planning', 'Active', 'Evaluating')
                 AND terminal_target IS NULL)
                OR (phase = 'Finalizing'
                    AND terminal_target IN ('Succeeded', 'Failed', 'Cancelled'))
                OR (phase IN ('Succeeded', 'Failed', 'Cancelled')
                    AND terminal_target = phase)
            )
        ) STRICT;

        CREATE TABLE goal_revisions (
            goal_id        TEXT    NOT NULL REFERENCES goals(id),
            revision       INTEGER NOT NULL CHECK (revision >= 1),
            content_digest BLOB    NOT NULL CHECK (length(content_digest) = 32),
            canonical_json TEXT    NOT NULL,
            created_at     INTEGER NOT NULL,
            PRIMARY KEY (goal_id, revision)
        ) STRICT;

        CREATE TABLE task_graphs (
            -- One graph per Goal. `id` is the Goal id and `revision` is the
            -- graph revision, so a graph patch is an ordinary revisioned CAS
            -- rather than a bespoke compare. Starts at 0: a Goal has a graph
            -- before it has any Task.
            id       TEXT    NOT NULL PRIMARY KEY REFERENCES goals(id),
            revision INTEGER NOT NULL CHECK (revision >= 0)
        ) STRICT;

        CREATE TABLE task_specs (
            -- Immutable and content-addressed: the same compiled spec reached
            -- twice is the same row.
            digest                            BLOB    NOT NULL PRIMARY KEY CHECK (length(digest) = 32),
            goal_id                           TEXT    NOT NULL REFERENCES goals(id),
            goal_revision                     INTEGER NOT NULL,
            canonical_json                    TEXT    NOT NULL,
            -- The acceptance contract identity later evaluation binds.
            acceptance_digest                 BLOB    NOT NULL CHECK (length(acceptance_digest) = 32),
            -- Evaluator resolution provenance, pinned at materialization. A
            -- later registry change cannot reach back through this.
            evaluator_registry_digest         BLOB    NOT NULL CHECK (length(evaluator_registry_digest) = 32),
            configuration_activation_sequence INTEGER NOT NULL,
            FOREIGN KEY (goal_id, goal_revision) REFERENCES goal_revisions(goal_id, revision)
        ) STRICT;

        CREATE TABLE tasks (
            id                     TEXT    NOT NULL PRIMARY KEY,
            goal_id                TEXT    NOT NULL REFERENCES goals(id),
            created_graph_revision INTEGER NOT NULL,
            phase                  TEXT    NOT NULL CHECK (phase IN (
                'Pending', 'Ready', 'Active', 'Waiting', 'Evaluating',
                'Finalizing', 'Succeeded', 'Failed', 'Cancelled', 'Superseded')),
            revision               INTEGER NOT NULL CHECK (revision > 0),
            terminal_target        TEXT,
            terminal_reason_json   TEXT,
            -- The responsible Run pointer. Always NULL in this mission; the
            -- column exists because the canonical phase invariants below are
            -- expressed in terms of it, and an MVP-only lifecycle a later
            -- mission must replace is exactly what the mission forbids.
            active_run_id          TEXT,
            spec_digest            BLOB    NOT NULL REFERENCES task_specs(digest),
            CHECK (
                (phase IN ('Pending', 'Ready', 'Active', 'Waiting', 'Evaluating')
                 AND terminal_target IS NULL)
                OR (phase = 'Finalizing'
                    AND terminal_target IN ('Succeeded', 'Failed', 'Cancelled', 'Superseded'))
                OR (phase IN ('Succeeded', 'Failed', 'Cancelled', 'Superseded')
                    AND terminal_target = phase)
            ),
            -- `Task Ready|Waiting => zero nonterminal Runs`, in the part
            -- SQLite can express row-locally.
            CHECK (phase NOT IN ('Ready', 'Waiting') OR active_run_id IS NULL),
            CHECK (phase != 'Active' OR active_run_id IS NOT NULL)
        ) STRICT;

        CREATE TABLE task_graph_edges (
            -- Temporal, never deleted: active at revision R when
            -- created <= R and removed is null or > R. No edge exists in this
            -- mission, but deletion-by-row-removal is the kind of MVP-only
            -- model a later mission would have to replace.
            goal_id                TEXT    NOT NULL REFERENCES task_graphs(id),
            upstream_task_id       TEXT    NOT NULL REFERENCES tasks(id),
            downstream_task_id     TEXT    NOT NULL REFERENCES tasks(id),
            kind                   TEXT    NOT NULL CHECK (kind = 'requires_success'),
            created_graph_revision INTEGER NOT NULL,
            removed_graph_revision INTEGER,
            CHECK (upstream_task_id != downstream_task_id),
            CHECK (removed_graph_revision IS NULL
                   OR removed_graph_revision > created_graph_revision)
        ) STRICT;

        CREATE TABLE planning_operations (
            id                                TEXT    NOT NULL PRIMARY KEY,
            goal_id                           TEXT    NOT NULL REFERENCES goals(id),
            -- The exact Goal revision and graph precondition this decision was
            -- frozen against. Materialization re-reads current state and
            -- compares against these.
            goal_revision                     INTEGER NOT NULL,
            expected_graph_revision           INTEGER NOT NULL CHECK (expected_graph_revision >= 0),
            trigger_kind                      TEXT    NOT NULL CHECK (trigger_kind IN ('initial')),
            planning_input_digest             BLOB    NOT NULL CHECK (length(planning_input_digest) = 32),
            -- Local deterministic planner provenance. The architecture names
            -- only an external 'Planner Agent snapshot'; a local planner still
            -- has to be identifiable to reproduce a decision.
            planner_implementation            TEXT    NOT NULL,
            planner_version                   TEXT    NOT NULL,
            configuration_activation_sequence INTEGER NOT NULL,
            -- Only the two states this mission's behaviour writes. A
            -- rejection state arrives with the behaviour that records one.
            state                             TEXT    NOT NULL CHECK (state IN (
                'Planned', 'Materialized')),
            revision                          INTEGER NOT NULL CHECK (revision > 0),
            created_at                        INTEGER NOT NULL,
            FOREIGN KEY (goal_id, goal_revision) REFERENCES goal_revisions(goal_id, revision)
        ) STRICT;

        CREATE TABLE planning_records (
            -- One immutable normalized proposal per operation. It is evidence,
            -- never authority: nothing reads this table to decide whether a
            -- graph may be mutated.
            planning_operation_id    TEXT    NOT NULL PRIMARY KEY
                                             REFERENCES planning_operations(id),
            proposal_digest          BLOB    NOT NULL CHECK (length(proposal_digest) = 32),
            canonical_proposal       TEXT    NOT NULL,
            normalization_provenance TEXT    NOT NULL,
            created_at               INTEGER NOT NULL
        ) STRICT;",
    });
    migrations.push(Migration {
        version: 8,
        name: "create_task_workspaces",
        sql: "CREATE TABLE workspaces (
            id              TEXT    NOT NULL PRIMARY KEY,
            -- Workspace ownership is Task-scoped and survives Run turnover,
            -- so the Task is the holder and there is no Run column here.
            task_id         TEXT    NOT NULL REFERENCES tasks(id),
            -- The opaque repository reference the Task declared. Recorded
            -- verbatim: no canonical contract defines a URI shape to parse.
            repository      TEXT    NOT NULL CHECK (length(repository) BETWEEN 1 AND 512),
            -- The controller-trusted local repository root. Global recovery
            -- requires durable Pantheon records to define the roots recovery
            -- may inspect, rather than following repository indirection to
            -- discover one.
            source_path     TEXT    NOT NULL CHECK (length(source_path) > 0),
            -- What was asked for, which may move afterwards.
            requested_base  TEXT    NOT NULL CHECK (length(requested_base) BETWEEN 1 AND 255),
            -- What it resolved to, once. Immutable for the life of the
            -- Workspace: 40 hexadecimal characters for a SHA-1 repository,
            -- 64 for a SHA-256 one.
            resolved_base   TEXT    NOT NULL CHECK (length(resolved_base) IN (40, 64)),
            phase           TEXT    NOT NULL CHECK (phase IN (
                'Requested', 'Materializing', 'Ready', 'Frozen',
                'Releasing', 'Released', 'Error')),
            -- The strongest factual observation about external state, kept
            -- independent of `phase` for the reason the Sandbox contract
            -- gives: a controller error never proves external absence.
            materialization TEXT    NOT NULL CHECK (materialization IN (
                'Present', 'Absent', 'Unknown')),
            revision        INTEGER NOT NULL CHECK (revision > 0),
            created_at      INTEGER NOT NULL,
            -- A partially materialized Workspace can never be reported
            -- Ready. This is the mission's central fence, so it is a
            -- database constraint rather than a controller promise.
            CHECK (phase != 'Ready' OR materialization = 'Present'),
            -- Durable intention exists before any side effect: while a
            -- Workspace is still Requested, recovery may conclude that no
            -- external state exists. Crossing to Materializing is what
            -- gives up that conclusion.
            CHECK (phase != 'Requested' OR materialization = 'Absent'),
            -- Releasing the Task's Workspace slot requires established
            -- absence, never a timeout or an error.
            CHECK (phase != 'Released' OR materialization = 'Absent')
        ) STRICT;

        -- A coding Task owns exactly one current Workspace. Enforced by the
        -- database because it is a cardinality invariant, not a scheduling
        -- convention: two concurrent materializations for one Task must fail
        -- rather than race to create a second authority.
        CREATE UNIQUE INDEX workspaces_one_current_per_task
            ON workspaces (task_id) WHERE phase != 'Released';",
    });
    migrations.push(Migration {
        version: 9,
        name: "create_scheduling_and_run_intent",
        sql: "CREATE TABLE scheduler_state (
            id                    TEXT    NOT NULL PRIMARY KEY CHECK (id = 'singleton'),
            -- Operator desired state only. It is never rewritten to stand for
            -- recovery or configuration readiness.
            dispatch_mode         TEXT    NOT NULL CHECK (dispatch_mode IN ('RUNNING', 'PAUSED')),
            -- Logical fairness counter. Advances only inside a successful T3,
            -- never from MAX()+1 or a wall clock.
            next_service_sequence INTEGER NOT NULL CHECK (next_service_sequence >= 1),
            revision              INTEGER NOT NULL CHECK (revision > 0),
            updated_at            INTEGER NOT NULL
        ) STRICT;

        CREATE TABLE goal_scheduling_state (
            goal_id              TEXT    NOT NULL PRIMARY KEY REFERENCES goals(id),
            -- NULL means this Goal has never successfully received service.
            last_served_sequence INTEGER CHECK (
                last_served_sequence IS NULL OR last_served_sequence >= 1),
            revision             INTEGER NOT NULL CHECK (revision > 0),
            created_at           INTEGER NOT NULL,
            updated_at           INTEGER NOT NULL
        ) STRICT;

        CREATE TABLE task_scheduling_state (
            task_id                  TEXT    NOT NULL PRIMARY KEY REFERENCES tasks(id),
            -- Start of the current SchedulingEligible interval. NULL exactly
            -- when the Task is not currently eligible; written with the
            -- transition that changes eligibility, not by queue rebuilds.
            eligible_since           INTEGER,
            -- Temporary backoff suppression point. Never mutates Task
            -- lifecycle and never resets eligible_since.
            next_attempt_at          INTEGER,
            last_failure_code        TEXT,
            last_failure_detail_json TEXT,
            revision                 INTEGER NOT NULL CHECK (revision > 0),
            updated_at               INTEGER NOT NULL
        ) STRICT;

        CREATE TABLE execution_bindings (
            -- Content-addressed and immutable: the same frozen strategy is
            -- the same row, reached twice or not.
            digest                            BLOB NOT NULL PRIMARY KEY CHECK (length(digest) = 32),
            task_id                           TEXT NOT NULL REFERENCES tasks(id),
            configuration_activation_sequence INTEGER NOT NULL,
            configuration_content_digest      BLOB NOT NULL CHECK (length(configuration_content_digest) = 32),
            canonical_json                    TEXT NOT NULL,
            created_at                        INTEGER NOT NULL
        ) STRICT;

        CREATE TABLE context_source_snapshots (
            digest                            BLOB NOT NULL PRIMARY KEY CHECK (length(digest) = 32),
            configuration_activation_sequence INTEGER NOT NULL,
            context_policy_digest             BLOB NOT NULL CHECK (length(context_policy_digest) = 32),
            task_spec_digest                  BLOB NOT NULL CHECK (length(task_spec_digest) = 32),
            goal_id                           TEXT NOT NULL REFERENCES goals(id),
            goal_revision                     INTEGER NOT NULL,
            graph_revision                    INTEGER NOT NULL,
            agent_name                        TEXT NOT NULL,
            agent_version                     INTEGER NOT NULL,
            workspace_id                      TEXT NOT NULL REFERENCES workspaces(id),
            workspace_resolved_base           TEXT NOT NULL,
            canonical_json                    TEXT NOT NULL,
            created_at                        INTEGER NOT NULL
        ) STRICT;

        CREATE TABLE runs (
            id                             TEXT    NOT NULL PRIMARY KEY,
            task_id                        TEXT    NOT NULL REFERENCES tasks(id),
            binding_digest                 BLOB    NOT NULL REFERENCES execution_bindings(digest),
            context_source_snapshot_digest BLOB    NOT NULL REFERENCES context_source_snapshots(digest),
            created_at                     INTEGER NOT NULL,
            -- The composite parent key the holder-safe FKs below require.
            UNIQUE (id, task_id)
        ) STRICT;

        CREATE TABLE run_status (
            run_id          TEXT    NOT NULL PRIMARY KEY,
            -- Immutable copy of runs.task_id, constrained to agree through
            -- the composite FK: run holder identity cannot drift.
            task_id         TEXT    NOT NULL,
            phase           TEXT    NOT NULL CHECK (phase IN (
                'Active', 'Finalizing', 'Completed', 'Failed',
                'Cancelled', 'Yielded')),
            terminal_target TEXT,
            revision        INTEGER NOT NULL CHECK (revision > 0),
            -- The v0.1.0 single global execution slot. A nonterminal Run holds
            -- it installation-wide; reaching a terminal phase releases it.
            active_slot     TEXT,
            updated_at      INTEGER NOT NULL,
            FOREIGN KEY (run_id, task_id) REFERENCES runs(id, task_id),
            CHECK (
                phase != 'Finalizing' OR terminal_target IS NOT NULL
            ),
            CHECK (
                (phase IN ('Active', 'Finalizing') AND active_slot = 'global')
                OR (phase NOT IN ('Active', 'Finalizing') AND active_slot IS NULL)
            )
        ) STRICT;

        -- At most one nonterminal Run per Task: the canonical one-live-Run
        -- rule as a real database backstop, not controller discipline.
        CREATE UNIQUE INDEX one_nonterminal_run_per_task
            ON run_status (task_id) WHERE phase IN ('Active', 'Finalizing');

        -- The MVP's one deliberate global active-execution slot: at most one
        -- nonterminal Run installation-wide. Two concurrent T3 commits under
        -- different command identities therefore cannot both succeed even if
        -- every other fence were removed.
        CREATE UNIQUE INDEX one_active_execution_slot
            ON run_status (active_slot) WHERE active_slot IS NOT NULL;",
    });
    migrations.push(Migration {
        version: 10,
        name: "bootstrap_scheduler_state",
        sql: "INSERT INTO scheduler_state (id, dispatch_mode, next_service_sequence, revision, updated_at)
            SELECT 'singleton', 'RUNNING', 1, 1, unixepoch()
            WHERE NOT EXISTS (SELECT 1 FROM scheduler_state WHERE id = 'singleton');

        INSERT INTO task_scheduling_state (task_id, eligible_since, next_attempt_at,
                                           last_failure_code, last_failure_detail_json,
                                           revision, updated_at)
            SELECT t.id, unixepoch(), NULL, NULL, NULL, 1, unixepoch()
            FROM tasks t
            WHERE t.phase = 'Ready'
              AND NOT EXISTS (
                  SELECT 1 FROM task_scheduling_state s WHERE s.task_id = t.id);",
    });
    migrations.push(Migration {
        version: 11,
        name: "create_artifacts_and_workspace_revisions",
        sql: "CREATE TABLE blobs (
            -- Blob identity is digest + size; the digest is the key and the
            -- size is checked against it on every publication.
            digest     BLOB    NOT NULL PRIMARY KEY CHECK (length(digest) = 32),
            size       INTEGER NOT NULL CHECK (size >= 0),
            created_at INTEGER NOT NULL
        ) STRICT;

        CREATE TABLE artifacts (
            -- Artifact identity is the digest of the canonical manifest.
            -- Reaching the same manifest twice is one row, not two.
            digest         BLOB    NOT NULL PRIMARY KEY CHECK (length(digest) = 32),
            artifact_kind  TEXT    NOT NULL CHECK (length(artifact_kind) BETWEEN 1 AND 128),
            canonical_json TEXT    NOT NULL,
            created_at     INTEGER NOT NULL
        ) STRICT;

        -- Relational reachability between an Artifact and the Blobs its
        -- semantics require, so CAS completeness/GC has a graph to follow
        -- that does not depend on re-parsing manifests.
        CREATE TABLE artifact_members (
            artifact_digest BLOB NOT NULL REFERENCES artifacts(digest),
            blob_digest     BLOB NOT NULL REFERENCES blobs(digest),
            PRIMARY KEY (artifact_digest, blob_digest)
        ) STRICT;

        CREATE TABLE workspace_revisions (
            id             TEXT    NOT NULL PRIMARY KEY CHECK (length(id) = 32),
            workspace_id   TEXT    NOT NULL REFERENCES workspaces(id),
            -- The repository identity and immutable base this checkpoint was
            -- captured against, copied from the Workspace's durable binding.
            repository     TEXT    NOT NULL CHECK (length(repository) BETWEEN 1 AND 512),
            resolved_base  TEXT    NOT NULL CHECK (length(resolved_base) IN (40, 64)),
            -- The immutable semantic-state digest: deterministic over the
            -- captured logical state alone. One Workspace cannot hold two
            -- rows claiming different content for the same state digest, so
            -- re-capturing identical state converges on the existing row.
            state_digest   BLOB    NOT NULL CHECK (length(state_digest) = 32),
            canonical_json TEXT    NOT NULL,
            created_at     INTEGER NOT NULL,
            UNIQUE (workspace_id, state_digest)
        ) STRICT;",
    });
    migrations.push(Migration {
        version: 12,
        name: "create_context_plan_attachment",
        sql: "ALTER TABLE context_source_snapshots
                  ADD COLUMN agent_soul_digest BLOB CHECK (length(agent_soul_digest) = 32);

        ALTER TABLE context_source_snapshots
                  ADD COLUMN agent_behavior_digest BLOB CHECK (length(agent_behavior_digest) = 32);

        -- Composite parent key for run_context_plans' holder-safe FK below.
        CREATE UNIQUE INDEX runs_id_and_source_snapshot
            ON runs (id, context_source_snapshot_digest);

        CREATE TABLE context_plans (
            digest                 BLOB    NOT NULL PRIMARY KEY CHECK (length(digest) = 32),
            -- A plan exists only relative to one exact frozen source universe.
            source_snapshot_digest BLOB    NOT NULL
                                           REFERENCES context_source_snapshots(digest),
            builder_version        TEXT    NOT NULL
                                           CHECK (length(builder_version) BETWEEN 1 AND 128),
            canonical_json         TEXT    NOT NULL,
            created_at             INTEGER NOT NULL,
            UNIQUE (digest, source_snapshot_digest)
        ) STRICT;

        CREATE TABLE run_context_plans (
            -- Primary key over the Run alone: at most one attachment per Run,
            -- enforced by the database rather than controller discipline.
            -- Existence of the Run is proved by the composite FK below, which
            -- also proves the snapshot pairing; a bare run_id FK would say
            -- less.
            run_id                         TEXT    NOT NULL PRIMARY KEY,
            context_source_snapshot_digest BLOB    NOT NULL,
            context_plan_digest            BLOB    NOT NULL
                                                   CHECK (length(context_plan_digest) = 32),
            attached_at                    INTEGER NOT NULL,
            -- Holder-safe FKs proving both halves at once: the attachment
            -- names THIS Run's exact frozen snapshot, and the plan was built
            -- from that same snapshot. A plan for another snapshot is not
            -- merely rejected by the controller; the database refuses it.
            FOREIGN KEY (run_id, context_source_snapshot_digest)
                REFERENCES runs(id, context_source_snapshot_digest),
            FOREIGN KEY (context_plan_digest, context_source_snapshot_digest)
                REFERENCES context_plans(digest, source_snapshot_digest)
        ) STRICT;",
    });
    migrations.push(Migration {
        version: 13,
        name: "create_attempt_lineage",
        sql: "CREATE TABLE attempts (
            id         TEXT    NOT NULL PRIMARY KEY CHECK (length(id) BETWEEN 1 AND 128),
            run_id     TEXT    NOT NULL REFERENCES runs(id),
            -- Position of this Attempt within its Run's history, 1-based,
            -- assigned inside T4/T8. Not unique across Runs.
            ordinal    INTEGER NOT NULL CHECK (ordinal >= 1),
            -- The immutable external-launch idempotency key. 64 hex
            -- characters = 256 bits drawn from the installation's entropy
            -- source before any external contact.
            launch_key TEXT    NOT NULL UNIQUE CHECK (length(launch_key) = 64),
            created_at INTEGER NOT NULL,
            -- Composite parent key for the holder-safe FKs below.
            UNIQUE (id, run_id)
        ) STRICT;

        CREATE TABLE attempt_status (
            attempt_id               TEXT    NOT NULL PRIMARY KEY,
            -- Immutable copy of attempts.run_id, constrained to agree by the
            -- composite FK: Attempt holder identity cannot drift.
            run_id                   TEXT    NOT NULL,
            observed_execution       TEXT    NOT NULL CHECK (observed_execution IN (
                                         'ABSENT', 'STARTING', 'RUNNING',
                                         'EXITED', 'UNKNOWN')),
            terminal                 INTEGER NOT NULL CHECK (terminal IN (0, 1)),
            revision                 INTEGER NOT NULL CHECK (revision > 0),
            launch_contact_state     TEXT    NOT NULL CHECK (launch_contact_state IN (
                                         'NOT_CONTACTED', 'CONTACT_MAY_HAVE_OCCURRED')),
            launch_contact_initiated_at INTEGER,
            -- Provenance of the controller incarnation that crossed the
            -- boundary, recorded with the state it belongs to.
            launch_contact_epoch     TEXT,
            started_at               INTEGER,
            finished_at              INTEGER,
            updated_at               INTEGER NOT NULL,
            CHECK ((launch_contact_state = 'NOT_CONTACTED')
                   = (launch_contact_initiated_at IS NULL)
                   AND (launch_contact_state = 'NOT_CONTACTED')
                   = (launch_contact_epoch IS NULL)),
            CHECK (terminal != 0 OR finished_at IS NULL),
            FOREIGN KEY (attempt_id, run_id) REFERENCES attempts(id, run_id)
        ) STRICT;

        -- V1 permits at most one nonterminal Attempt per Run. Enforced here,
        -- on the status table where terminality lives, not only by the T4/T8
        -- transaction that re-reads it.
        CREATE UNIQUE INDEX one_nonterminal_attempt_per_run
            ON attempt_status (run_id) WHERE terminal = 0;

        CREATE TABLE agent_control_sessions (
            id                  TEXT    NOT NULL PRIMARY KEY
                                        CHECK (length(id) BETWEEN 1 AND 128),
            attempt_id          TEXT    NOT NULL UNIQUE REFERENCES attempts(id),
            -- Immutable authority fencing: the RestoreGeneration this session
            -- was created under, copied from system_state inside T4/T8.
            restore_generation  TEXT    NOT NULL CHECK (length(restore_generation) = 32),
            credential_revision INTEGER NOT NULL CHECK (credential_revision >= 1),
            -- One-way verifier of the raw bearer; the bearer itself is never
            -- persisted anywhere.
            credential_hash     BLOB    NOT NULL CHECK (length(credential_hash) = 32),
            credential_rekeyed_at INTEGER,
            state               TEXT    NOT NULL CHECK (state IN ('ACTIVE', 'REVOKED')),
            created_at          INTEGER NOT NULL,
            revoked_at          INTEGER,
            revocation_reason   TEXT,
            CHECK ((state = 'ACTIVE') = (revoked_at IS NULL))
        ) STRICT;

        CREATE TABLE run_status_new (
            run_id             TEXT    NOT NULL PRIMARY KEY,
            task_id            TEXT    NOT NULL,
            phase              TEXT    NOT NULL CHECK (phase IN (
                'Active', 'Finalizing', 'Completed', 'Failed',
                'Cancelled', 'Yielded')),
            terminal_target    TEXT,
            revision           INTEGER NOT NULL CHECK (revision > 0),
            active_slot        TEXT,
            current_attempt_id TEXT,
            updated_at         INTEGER NOT NULL,
            FOREIGN KEY (run_id, task_id) REFERENCES runs(id, task_id),
            -- Holder safety for the current-Attempt pointer: it may only name
            -- an Attempt that exists and belongs to exactly this Run.
            FOREIGN KEY (current_attempt_id, run_id) REFERENCES attempts(id, run_id),
            CHECK (
                phase != 'Finalizing' OR terminal_target IS NOT NULL
            ),
            CHECK (
                (phase IN ('Active', 'Finalizing') AND active_slot = 'global')
                OR (phase NOT IN ('Active', 'Finalizing') AND active_slot IS NULL)
            )
        ) STRICT;

        INSERT INTO run_status_new
            SELECT run_id, task_id, phase, terminal_target, revision,
                   active_slot, NULL, updated_at
            FROM run_status;
        DROP TABLE run_status;
        ALTER TABLE run_status_new RENAME TO run_status;

        CREATE UNIQUE INDEX one_nonterminal_run_per_task
            ON run_status (task_id) WHERE phase IN ('Active', 'Finalizing');

        CREATE UNIQUE INDEX one_active_execution_slot
            ON run_status (active_slot) WHERE active_slot IS NOT NULL;",
    });
    migrations.push(Migration {
        version: 14,
        name: "create_candidate_submission",
        sql: "CREATE TABLE agent_requests (
            attempt_id   TEXT    NOT NULL CHECK (length(attempt_id) BETWEEN 1 AND 128),
            request_id   TEXT    NOT NULL CHECK (length(request_id) BETWEEN 1 AND 128),
            -- One-way digest of the normalized operation and its semantic
            -- payload. Raw bearer material is never persisted anywhere and
            -- secret-derived material never enters this hash.
            request_hash BLOB    NOT NULL CHECK (length(request_hash) = 32),
            operation    TEXT    NOT NULL CHECK (operation IN
                                     ('artifact.seal', 'task.submit_result')),
            state        TEXT    NOT NULL CHECK (state IN
                                     ('STARTED', 'SUCCEEDED', 'FAILED')),
            result_ref   TEXT    CHECK (result_ref IS NULL
                                     OR length(result_ref) BETWEEN 1 AND 128),
            problem_code TEXT    CHECK (problem_code IS NULL
                                     OR length(problem_code) BETWEEN 1 AND 64),
            created_at   INTEGER NOT NULL,
            updated_at   INTEGER NOT NULL,
            PRIMARY KEY (attempt_id, request_id),
            FOREIGN KEY (attempt_id) REFERENCES attempts(id),
            CHECK ((state = 'SUCCEEDED') = (result_ref IS NOT NULL)),
            CHECK ((state = 'FAILED') = (problem_code IS NOT NULL))
        ) STRICT;

        CREATE TABLE production_records (
            -- Identity is the producing Run and the exact TaskSpec output
            -- slot: one Run produces one settled Artifact per slot (the
            -- frozen-Workspace fence makes re-sealing converge), while the
            -- same Artifact content may be produced independently by many
            -- Runs. Content reuse is recorded, never conflated with current
            -- ownership.
            run_id                TEXT    NOT NULL,
            output_slot           TEXT    NOT NULL
                                          CHECK (length(output_slot) BETWEEN 1 AND 128),
            task_id               TEXT    NOT NULL,
            attempt_id            TEXT    NOT NULL,
            workspace_revision_id TEXT    NOT NULL
                                          REFERENCES workspace_revisions(id),
            artifact_digest       BLOB    NOT NULL
                                          REFERENCES artifacts(digest),
            created_at            INTEGER NOT NULL,
            PRIMARY KEY (run_id, output_slot),
            -- Holder safety: the recorded Task owns the Run, and the recorded
            -- Attempt belongs to that Run. Neither pointer can drift.
            FOREIGN KEY (run_id, task_id) REFERENCES runs(id, task_id),
            FOREIGN KEY (attempt_id, run_id) REFERENCES attempts(id, run_id),
            -- Parent key for candidate_outputs' provenance foreign key: the
            -- exact Artifact bound to this Run and this slot.
            UNIQUE (run_id, output_slot, artifact_digest)
        ) STRICT;

        CREATE TABLE candidates (
            -- Immutable content-addressed identity over the canonical
            -- semantic document Pantheon computes; submitters cannot mint it.
            digest         BLOB    NOT NULL PRIMARY KEY CHECK (length(digest) = 32),
            task_id        TEXT    NOT NULL,
            run_id         TEXT    NOT NULL,
            canonical_json TEXT    NOT NULL,
            created_at     INTEGER NOT NULL,
            -- At most one Candidate per Run, enforced by the database rather
            -- than controller discipline.
            UNIQUE (run_id),
            FOREIGN KEY (run_id, task_id) REFERENCES runs(id, task_id)
        ) STRICT;

        CREATE TABLE candidate_outputs (
            candidate_digest BLOB    NOT NULL REFERENCES candidates(digest),
            output_slot      TEXT    NOT NULL CHECK (length(output_slot) BETWEEN 1 AND 128),
            artifact_digest  BLOB    NOT NULL REFERENCES artifacts(digest),
            -- The Run whose sealed production the output claims. Provenance
            -- is relational: the composite foreign key below admits only a
            -- ProductionRecord that binds THIS exact Run, THIS exact slot,
            -- and THIS exact Artifact. An Artifact that merely exists under
            -- some other lineage's digest cannot be referenced here.
            production_run_id TEXT   NOT NULL,
            PRIMARY KEY (candidate_digest, output_slot),
            FOREIGN KEY (candidate_digest) REFERENCES candidates(digest),
            FOREIGN KEY (artifact_digest) REFERENCES artifacts(digest),
            FOREIGN KEY (production_run_id, output_slot, artifact_digest)
                REFERENCES production_records(run_id, output_slot, artifact_digest)
        ) STRICT;

        CREATE TABLE run_status_new (
            run_id             TEXT    NOT NULL PRIMARY KEY,
            task_id            TEXT    NOT NULL,
            phase              TEXT    NOT NULL CHECK (phase IN (
                'Active', 'Finalizing', 'Completed', 'Failed',
                'Cancelled', 'Yielded')),
            terminal_target    TEXT,
            revision           INTEGER NOT NULL CHECK (revision > 0),
            active_slot        TEXT,
            current_attempt_id TEXT,
            candidate_digest   BLOB    CHECK (length(candidate_digest) = 32),
            updated_at         INTEGER NOT NULL,
            FOREIGN KEY (run_id, task_id) REFERENCES runs(id, task_id),
            FOREIGN KEY (current_attempt_id, run_id) REFERENCES attempts(id, run_id),
            CHECK (
                phase != 'Finalizing' OR terminal_target IS NOT NULL
            ),
            CHECK (
                phase != 'Completed' OR candidate_digest IS NOT NULL
            ),
            CHECK (
                (phase IN ('Active', 'Finalizing') AND active_slot = 'global')
                OR (phase NOT IN ('Active', 'Finalizing') AND active_slot IS NULL)
            )
        ) STRICT;

        INSERT INTO run_status_new
            SELECT run_id, task_id, phase, terminal_target, revision,
                   active_slot, current_attempt_id, NULL, updated_at
            FROM run_status;
        DROP TABLE run_status;
        ALTER TABLE run_status_new RENAME TO run_status;

        CREATE UNIQUE INDEX one_nonterminal_run_per_task
            ON run_status (task_id) WHERE phase IN ('Active', 'Finalizing');

        CREATE UNIQUE INDEX one_active_execution_slot
            ON run_status (active_slot) WHERE active_slot IS NOT NULL;",
    });
    migrations.push(Migration {
        version: 15,
        name: "create_sandbox_instances",
        sql: "CREATE TABLE sandbox_instances (
            id                    TEXT    NOT NULL PRIMARY KEY CHECK (length(id) BETWEEN 1 AND 128),
            -- The Run that owns this Sandbox. A Run has at most one
            -- current/non-RELEASED Sandbox.
            -- NOTE: MVP omits the REFERENCES runs(id) foreign key so that
            -- sandbox store tests can exercise the table without the full
            -- scheduling pipeline.  The RunController is the only production
            -- caller and it already validates run existence before creating
            -- a sandbox.
            run_id                TEXT    NOT NULL,
            -- Immutable identity of the SandboxPlan that authorized this
            -- instance, so verification can check that the external runtime
            -- matches the plan Pantheon committed to.
            sandbox_plan_digest   BLOB    NOT NULL CHECK (length(sandbox_plan_digest) = 32),
            -- Immutable content identity of the execution environment — an
            -- image digest rather than a mutable tag.
            environment_identity  TEXT    NOT NULL CHECK (length(environment_identity) > 0),
            phase                 TEXT    NOT NULL CHECK (phase IN (
                'Requested', 'Preparing', 'Ready', 'Releasing',
                'Released', 'Error')),
            -- The strongest factual observation about external runtime state,
            -- kept independent of `phase`.
            observed_presence     TEXT    NOT NULL CHECK (observed_presence IN (
                'Present', 'Absent', 'Unknown')),
            revision              INTEGER NOT NULL CHECK (revision > 0),
            created_at            INTEGER NOT NULL,
            updated_at            INTEGER NOT NULL,
            -- A partially prepared Sandbox can never be reported Ready.
            CHECK (phase != 'Ready' OR observed_presence = 'Present'),
            -- Durable intention exists before any side effect.
            CHECK (phase != 'Requested' OR observed_presence = 'Absent'),
            -- Ordinary release requires established external absence.
            CHECK (phase != 'Released' OR observed_presence = 'Absent')
        ) STRICT;

        -- At most one current Sandbox per Run: the canonical one-live-Sandbox
        -- rule as a real database backstop.
        CREATE UNIQUE INDEX sandbox_one_current_per_run
            ON sandbox_instances (run_id) WHERE phase != 'Released';",
    });
    migrations.push(Migration {
        version: 16,
        name: "create_sandbox_probe_results",
        sql: "CREATE TABLE sandbox_probe_results (
            id                        INTEGER PRIMARY KEY,
            sandbox_id                TEXT    NOT NULL,
            probe_name                TEXT    NOT NULL,
            expected                  TEXT    NOT NULL,
            observed                  TEXT    NOT NULL,
            passed                    INTEGER NOT NULL CHECK (passed IN (0, 1)),
            backend_descriptor        TEXT    NOT NULL,
            backend_version           TEXT    NOT NULL,
            platform                  TEXT    NOT NULL,
            architecture              TEXT    NOT NULL,
            probe_implementation_version TEXT NOT NULL,
            recorded_at               INTEGER NOT NULL
        ) STRICT;

        CREATE INDEX idx_sandbox_probe_results_sandbox_id
            ON sandbox_probe_results (sandbox_id);",
    });
    migrations
}

/// The FNV-1a offset basis.
pub open spec fn fnv_offset() -> u64 {
    0xcbf2_9ce4_8422_2325
}

/// The FNV-1a prime.
pub open spec fn fnv_prime() -> u64 {
    0x0000_0100_0000_01b3
}

/// 64-bit FNV-1a over `bytes`: for each byte, xor it in, then multiply by
/// the prime modulo 2^64.
pub open spec fn fnv1a(bytes: Seq<u8>) -> u64
    decreases bytes.len(),
{
    if bytes.len() == 0 {
        fnv_offset()
    } else {
        ((fnv1a(bytes.drop_last()) ^ (bytes.last() as u64)) as int * fnv_prime() as int % 0x1_0000_0000_0000_0000) as u64
    }
}

/// The checksum recorded for migration SQL: its FNV-1a hash as sixteen
/// lowercase hexadecimal digits.
pub open spec fn checksum_spec(sql: &str) -> Seq<char> {
    hex16(fnv1a(sql.spec_bytes()))
}

/// The checksum recorded for migration SQL: catches accidental drift between
/// what a database recorded and what this build would apply.
pub fn checksum(sql: &str) -> (c: String)
    ensures
        c@ == checksum_spec(sql),
{
    let bytes: &[u8] = sql.as_bytes();
    let mut hash: u64 = 0xcbf2_9ce4_8422_2325;
    let mut i: usize = 0;
    while i < bytes.len()
        invariant
            i <= bytes@.len(),
            bytes@ == sql.spec_bytes(),
            hash == fnv1a(bytes@.take(i as int)),
        decreases bytes@.len() - i,
    {
        proof {
            assert(bytes@.take(i as int + 1).drop_last() =~= bytes@.take(i as int));
        }
        hash = (hash ^ (bytes[i] as u64)).wrapping_mul(0x0000_0100_0000_01b3);
        i = i + 1;
    }
    proof {
        assert(bytes@.take(i as int) =~= bytes@);
    }
    let mut out: String = String::new();
    append_hex_u64(&mut out, hash);
    assert(out@ =~= hex16(hash));
    out
}

/// `j` is the first migration of version `v`.
pub open spec fn first_with_version(ms: Seq<Migration>, j: int, v: i64) -> bool {
    &&& 0 <= j < ms.len()
    &&& ms[j].version == v
    &&& forall|k: int| 0 <= k < j ==> (#[trigger] ms[k]).version != v
}

/// A recorded row is the `expected`-th applied migration: it has that
/// version, and its checksum is that of the known migration of that version.
pub open spec fn row_matches(ms: Seq<Migration>, row: AppliedMigration, expected: int) -> bool {
    &&& row.version == expected
    &&& exists|j: int| first_with_version(ms, j, row.version) && row.checksum@ == checksum_spec(#[trigger] ms[j].sql)
}

/// The bookkeeping is exactly the contiguous, checksum-matching prefix of
/// `ms` that `current_version` claims is applied.
pub open spec fn recorded_state_ok(ms: Seq<Migration>, rows: Seq<AppliedMigration>, current_version: i64) -> bool {
    &&& rows.len() == current_version
    &&& forall|i: int| 0 <= i < rows.len() ==> row_matches(ms, #[trigger] rows[i], i + 1)
}

/// The highest version a migration set knows, or zero for an empty set.
pub open spec fn max_known(ms: Seq<Migration>) -> i64 {
    if ms.len() == 0 {
        0
    } else {
        ms.last().version
    }
}

/// Where the first migration of version `v` is.
fn find_version(ms: &[Migration], v: i64) -> (r: Option<usize>)
    ensures
        match r {
            Some(j) => first_with_version(ms@, j as int, v),
            None => forall|k: int| 0 <= k < ms@.len() ==> (#[trigger] ms@[k]).version != v,
        },
{
    let mut k: usize = 0;
    while k < ms.len()
        invariant
            k <= ms@.len(),
            forall|j: int| 0 <= j < k ==> (#[trigger] ms@[j]).version != v,
        decreases ms@.len() - k,
    {
        if ms[k].version == v {
            return Some(k);
        }
        k = k + 1;
    }
    None
}

/// Confirms the recorded bookkeeping is exactly the contiguous,
/// checksum-matching prefix of `migrations` that `current_version` claims
/// is applied, before the database is trusted enough to apply anything.
pub fn verify_recorded_state(
    migrations: &[Migration],
    recorded: &[AppliedMigration],
    current_version: i64,
) -> (r: Result<(), StoreError>)
    ensures
        recorded_state_ok(migrations@, recorded@, current_version) ==> r is Ok,
        !recorded_state_ok(migrations@, recorded@, current_version) ==> r matches Err(
            StoreError::InconsistentMigrationState(_),
        ),
{
    let mut i: usize = 0;
    while i < recorded.len()
        invariant
            i <= recorded@.len(),
            forall|k: int| 0 <= k < i ==> row_matches(migrations@, #[trigger] recorded@[k], k + 1),
        decreases recorded@.len() - i,
    {
        let row = &recorded[i];
        if (i as u64) >= (i64::MAX as u64) || row.version != (i as i64) + 1 {
            return Err(
                StoreError::InconsistentMigrationState("schema_migrations has a gap in its versions".to_string()),
            );
        }
        let j: usize = match find_version(migrations, row.version) {
            Some(j) => j,
            None => {
                proof {
                    assert(!row_matches(migrations@, recorded@[i as int], i + 1));
                }
                return Err(
                    StoreError::InconsistentMigrationState(
                        "schema_migrations records a version this build does not know".to_string(),
                    ),
                );
            },
        };
        let expected = checksum(migrations[j].sql);
        if !str_eq(row.checksum.as_str(), expected.as_str()) {
            proof {
                if row_matches(migrations@, recorded@[i as int], i + 1) {
                    let w = choose|w: int|
                        first_with_version(migrations@, w, row.version) && row.checksum@ == checksum_spec(
                            #[trigger] migrations@[w].sql,
                        );
                    if w < j {
                        assert(migrations@[w].version != row.version);
                    }
                    if j < w {
                        assert(migrations@[j as int].version != row.version);
                    }
                }
            }
            return Err(
                StoreError::InconsistentMigrationState(
                    "a schema_migrations checksum does not match the compiled migration".to_string(),
                ),
            );
        }
        proof {
            assert(first_with_version(migrations@, j as int, row.version) && row.checksum@ == checksum_spec(
                migrations@[j as int].sql,
            ));
        }
        i = i + 1;
    }
    if (recorded.len() as u64) > (i64::MAX as u64) || recorded.len() as i64 != current_version {
        return Err(
            StoreError::InconsistentMigrationState(
                "user_version does not match the highest recorded migration".to_string(),
            ),
        );
    }
    Ok(())
}

/// Refuses a database whose schema version is newer than any migration of
/// `migrations`: opening it would risk misreading a schema this build does
/// not understand. Checked before anything at all is written.
pub fn check_supported(migrations: &[Migration], current_version: i64) -> (r: Result<(), StoreError>)
    ensures
        current_version > max_known(migrations@) ==> r == Err::<(), StoreError>(
            StoreError::UnsupportedSchemaVersion { found: current_version, max_known: max_known(migrations@) },
        ),
        current_version <= max_known(migrations@) ==> r is Ok,
{
    let max_known: i64 = if migrations.len() == 0 {
        0
    } else {
        migrations[migrations.len() - 1].version
    };
    if current_version > max_known {
        return Err(StoreError::UnsupportedSchemaVersion { found: current_version, max_known });
    }
    Ok(())
}

/// The migrations still to apply to a database at `current_version` whose
/// bookkeeping reads back as `recorded`, in order; or why none may be.
///
/// A schema newer than anything `migrations` knows is refused before any
/// bookkeeping is consulted.
pub fn plan_migrations(
    migrations: &[Migration],
    recorded: &[AppliedMigration],
    current_version: i64,
) -> (r: Result<Vec<Migration>, StoreError>)
    ensures
        if current_version > max_known(migrations@) {
            r == Err::<Vec<Migration>, StoreError>(
                StoreError::UnsupportedSchemaVersion { found: current_version, max_known: max_known(migrations@) },
            )
        } else if !recorded_state_ok(migrations@, recorded@, current_version) {
            r matches Err(StoreError::InconsistentMigrationState(_))
        } else {
            r matches Ok(pending) && pending@ == migrations@.filter(|m: Migration| m.version > current_version)
        },
{
    match check_supported(migrations, current_version) {
        Err(e) => {
            return Err(e);
        },
        Ok(()) => {},
    }
    match verify_recorded_state(migrations, recorded, current_version) {
        Err(e) => {
            return Err(e);
        },
        Ok(()) => {},
    }
    let mut pending: Vec<Migration> = Vec::new();
    let mut i: usize = 0;
    while i < migrations.len()
        invariant
            i <= migrations@.len(),
            pending@ == migrations@.take(i as int).filter(|m: Migration| m.version > current_version),
        decreases migrations@.len() - i,
    {
        proof {
            let f = |m: Migration| m.version > current_version;
            let t = migrations@.take(i as int + 1);
            assert(t.drop_last() =~= migrations@.take(i as int));
            assert(t.last() == migrations@[i as int]);
            reveal(Seq::filter);
            assert(t.filter(f) == if f(t.last()) {
                t.drop_last().filter(f).push(t.last())
            } else {
                t.drop_last().filter(f)
            });
        }
        if migrations[i].version > current_version {
            pending.push(migrations[i]);
        }
        i = i + 1;
    }
    proof {
        assert(migrations@.take(i as int) =~= migrations@);
    }
    Ok(pending)
}

} // verus!
