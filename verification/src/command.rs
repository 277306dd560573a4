//! The durable command mutation kernel.
//!
//! An operator mutation carries an identity `(commandEpoch, commandId)`,
//! where the epoch is the installation's current RestoreGeneration. The
//! kernel decides, in this order and before any mutation:
//!
//! 1. the epoch fence: an epoch other than the current RestoreGeneration is
//!    stale, whatever the ledger holds;
//! 2. the ledger: the same identity with the same request hash replays the
//!    recorded outcome, with a different hash it conflicts;
//! 3. only a genuinely new command mutates, and its mutation, the journal
//!    sequence allocation, the Event append and the ledger row are one
//!    atomic step of the store.

use vstd::prelude::*;

use crate::error::StoreError;
use crate::operator::EventRecord;
use crate::store::Store;
use crate::text::{bytes_eq, str_eq};

verus! {

/// The durable identity of one operator command, plus the Event it records.
#[derive(Debug, Clone, Copy)]
pub struct Command<'a> {
    /// The `commandEpoch` the caller believes is current.
    pub epoch: &'a str,
    /// Single-use within its epoch.
    pub id: &'a str,
    /// A non-sensitive digest of the request, computed by the caller.
    pub request_hash: &'a [u8; 32],
    /// The Event this command appends when it executes.
    pub event_type: &'a str,
}

/// A durable position in the Event Journal: `(journalEpoch, sequence)`.
#[derive(Debug, Clone, PartialEq, Eq)]
pub struct JournalCursor {
    pub epoch: String,
    pub sequence: i64,
}

impl JournalCursor {
    /// The journal history this position belongs to.
    pub fn epoch(&self) -> (r: &str)
        ensures
            r@ == self.epoch@,
    {
        self.epoch.as_str()
    }

    /// The position within that history.
    pub fn sequence(&self) -> (r: i64)
        ensures
            r == self.sequence,
    {
        self.sequence
    }
}

/// What a command committed.
#[derive(Debug)]
pub enum Committed<T> {
    /// The command was new in its epoch; the mutation ran exactly once.
    Executed { value: T, cursor: JournalCursor },
    /// The identity and request hash were already committed; nothing ran.
    Replayed { cursor: JournalCursor, recorded_at: i64 },
}

impl<T> Committed<T> {
    /// The journal position of this command's Event, however it resolved.
    pub fn cursor(&self) -> (r: &JournalCursor)
        ensures
            r == match self {
                Committed::Executed { cursor, .. } => cursor,
                Committed::Replayed { cursor, .. } => cursor,
            },
    {
        match self {
            Committed::Executed { cursor, .. } => cursor,
            Committed::Replayed { cursor, .. } => cursor,
        }
    }

    /// Whether the mutation ran on this call.
    pub fn was_executed(&self) -> (r: bool)
        ensures
            r == (self is Executed),
    {
        match self {
            Committed::Executed { .. } => true,
            Committed::Replayed { .. } => false,
        }
    }
}

/// One durable ledger row: the identity, its request hash, and where its
/// Event landed.
#[derive(Debug)]
pub struct CommandRow {
    pub command_epoch: String,
    pub command_id: String,
    pub request_hash: Vec<u8>,
    pub journal_epoch: String,
    pub sequence: i64,
    pub recorded_at: i64,
}

/// Whether the ledger holds the identity `(epoch, id)`.
pub open spec fn ledger_has(rows: Seq<CommandRow>, epoch: Seq<char>, id: Seq<char>) -> bool {
    exists|i: int| 0 <= i < rows.len() && #[trigger] rows[i].command_epoch@ == epoch
        && rows[i].command_id@ == id
}

/// The ledger row of the identity `(epoch, id)`, when it has one.
pub open spec fn ledger_row(rows: Seq<CommandRow>, epoch: Seq<char>, id: Seq<char>) -> CommandRow {
    rows[choose|i: int|
        0 <= i < rows.len() && #[trigger] rows[i].command_epoch@ == epoch && rows[i].command_id@
            == id]
}

/// No two ledger rows share an identity.
pub open spec fn ledger_unique(rows: Seq<CommandRow>) -> bool {
    forall|i: int, j: int|
        0 <= i < rows.len() && 0 <= j < rows.len() && i != j ==> !(
        #[trigger] rows[i].command_epoch@ == #[trigger] rows[j].command_epoch@
            && rows[i].command_id@ == rows[j].command_id@)
}

/// How the kernel classifies a command against a store state.
pub enum CommandClass {
    /// The epoch is not the current RestoreGeneration.
    Stale,
    /// The identity was used with a different request hash.
    Conflict,
    /// The identity was used with this request hash.
    Replay,
    /// The identity is new, but the journal has no sequence left to give.
    Exhausted,
    /// The identity is new, but its id or Event type is empty or longer
    /// than the ledger and journal store.
    Malformed,
    /// The identity is new and the journal has room.
    Fresh,
}

/// The kernel's decision for a command, from its epoch, id and hash.
pub open spec fn classify(s: Store, epoch: Seq<char>, id: Seq<char>, hash: Seq<u8>) -> CommandClass {
    if epoch != s.restore_generation@ {
        CommandClass::Stale
    } else if ledger_has(s.commands@, epoch, id) {
        if ledger_row(s.commands@, epoch, id).request_hash@ == hash {
            CommandClass::Replay
        } else {
            CommandClass::Conflict
        }
    } else if s.next_sequence >= i64::MAX {
        CommandClass::Exhausted
    } else {
        CommandClass::Fresh
    }
}

/// The kernel's decision for `c` against `s`.
pub open spec fn class_of(s: Store, c: Command) -> CommandClass {
    let k = classify(s, c.epoch@, c.id@, c.request_hash@);
    if k is Fresh && !command_shape_ok(c) {
        CommandClass::Malformed
    } else {
        k
    }
}

/// The stored constraints on a command's identity and Event type: each is
/// 1 to 128 characters long.
pub open spec fn command_shape_ok(c: Command) -> bool {
    &&& 1 <= c.id@.len() <= 128
    &&& 1 <= c.event_type@.len() <= 128
}

/// The outcome the kernel owes for every class but `Fresh`, whose outcome
/// is the mutation's own: a refusal carries its typed error, a replay
/// reports the recorded cursor and time, and neither changes the store.
pub open spec fn gate_outcome<T>(
    before: Store,
    after: Store,
    c: Command,
    r: Result<Committed<T>, StoreError>,
) -> bool {
    match class_of(before, c) {
        CommandClass::Stale => {
            &&& r matches Err(StoreError::StaleCommandEpoch { supplied, current })
            &&& supplied@ == c.epoch@
            &&& current@ == before.restore_generation@
            &&& after == before
        },
        CommandClass::Conflict => {
            &&& r matches Err(StoreError::CommandConflict { command_id })
            &&& command_id@ == c.id@
            &&& after == before
        },
        CommandClass::Exhausted => {
            &&& r matches Err(StoreError::InvariantViolated(_))
            &&& after == before
        },
        CommandClass::Malformed => {
            &&& r matches Err(StoreError::ConstraintViolated(_))
            &&& after == before
        },
        CommandClass::Replay => {
            let row = ledger_row(before.commands@, c.epoch@, c.id@);
            &&& r matches Ok(Committed::Replayed { cursor, recorded_at })
            &&& cursor.epoch@ == row.journal_epoch@
            &&& cursor.sequence == row.sequence
            &&& recorded_at == row.recorded_at
            &&& after == before
        },
        CommandClass::Fresh => !(r matches Ok(Committed::Replayed { .. })),
    }
}

/// The Event appended at the end of `after`'s journal, allocated from
/// `before`'s allocator, carrying `event_type` and command provenance
/// `command` (`None` for internal bookkeeping Events).
pub open spec fn event_appended(
    before: Store,
    after: Store,
    event_type: Seq<char>,
    command: Option<(Seq<char>, Seq<char>)>,
) -> bool {
    let e = after.events@.last();
    &&& after.next_sequence == before.next_sequence + 1
    &&& after.journal_epoch == before.journal_epoch
    &&& after.events@.len() == before.events@.len() + 1
    &&& after.events@.drop_last() == before.events@
    &&& e.journal_epoch@ == before.journal_epoch@
    &&& e.sequence == before.next_sequence
    &&& e.event_type@ == event_type
    &&& e.event_id@.len() == 32
    &&& match command {
        Some((epoch, id)) => {
            &&& e.command_epoch matches Some(ce)
            &&& ce@ == epoch
            &&& e.command_id matches Some(ci)
            &&& ci@ == id
        },
        None => e.command_epoch is None && e.command_id is None,
    }
}

/// A command's complete durable trace: its Event appended and its ledger
/// row recorded at the Event's position, with `cursor` naming it.
pub open spec fn command_recorded(before: Store, after: Store, c: Command, cursor: JournalCursor) -> bool {
    let row = after.commands@.last();
    &&& event_appended(before, after, c.event_type@, Some((c.epoch@, c.id@)))
    &&& after.restore_generation == before.restore_generation
    &&& cursor.epoch@ == before.journal_epoch@
    &&& cursor.sequence == before.next_sequence
    &&& after.commands@.len() == before.commands@.len() + 1
    &&& after.commands@.drop_last() == before.commands@
    &&& row.command_epoch@ == c.epoch@
    &&& row.command_id@ == c.id@
    &&& row.request_hash@ == c.request_hash@
    &&& row.journal_epoch@ == before.journal_epoch@
    &&& row.sequence == before.next_sequence
    &&& row.recorded_at == after.events@.last().recorded_at
}

/// How the kernel classified a command before running it: replay the
/// stored result, or proceed.
pub(crate) enum Gate {
    Replayed { cursor: JournalCursor, recorded_at: i64 },
    Fresh,
}

/// The index of the ledger row for the identity, when there is one.
fn lookup(rows: &Vec<CommandRow>, epoch: &str, id: &str) -> (r: Option<usize>)
    ensures
        match r {
            Some(i) => {
                &&& i < rows@.len()
                &&& rows@[i as int].command_epoch@ == epoch@
                &&& rows@[i as int].command_id@ == id@
            },
            None => !ledger_has(rows@, epoch@, id@),
        },
{
    let mut i: usize = 0;
    while i < rows.len()
        invariant
            i <= rows@.len(),
            forall|j: int|
                0 <= j < i ==> !(#[trigger] rows@[j].command_epoch@ == epoch@ && rows@[j].command_id@
                    == id@),
        decreases rows@.len() - i,
    {
        if str_eq(rows[i].command_epoch.as_str(), epoch) && str_eq(rows[i].command_id.as_str(), id) {
            return Some(i);
        }
        i = i + 1;
    }
    None
}

/// Under a unique ledger, the row found for an identity is its ledger row.
pub(crate) proof fn lemma_ledger_row(rows: Seq<CommandRow>, i: int, epoch: Seq<char>, id: Seq<char>)
    requires
        ledger_unique(rows),
        0 <= i < rows.len(),
        rows[i].command_epoch@ == epoch,
        rows[i].command_id@ == id,
    ensures
        ledger_has(rows, epoch, id),
        ledger_row(rows, epoch, id) == rows[i],
{
    let j = choose|j: int|
        0 <= j < rows.len() && #[trigger] rows[j].command_epoch@ == epoch && rows[j].command_id@
            == id;
    assert(rows[i].command_epoch@ == rows[j].command_epoch@);
}

impl Store {
    /// The epoch fence and ledger classification, decided before anything is
    /// mutated: a stale epoch, a conflicting reuse or an exhausted journal is
    /// refused, an exact reuse reports its recorded outcome, and a new
    /// identity is let through.
    pub(crate) fn command_gate(&self, command: &Command) -> (r: Result<Gate, StoreError>)
        requires
            self.wf(),
        ensures
            match class_of(*self, *command) {
                CommandClass::Fresh => r matches Ok(Gate::Fresh),
                CommandClass::Replay => {
                    let row = ledger_row(self.commands@, command.epoch@, command.id@);
                    &&& r matches Ok(Gate::Replayed { cursor, recorded_at })
                    &&& cursor.epoch@ == row.journal_epoch@
                    &&& cursor.sequence == row.sequence
                    &&& recorded_at == row.recorded_at
                },
                CommandClass::Stale => {
                    &&& r matches Err(StoreError::StaleCommandEpoch { supplied, current })
                    &&& supplied@ == command.epoch@
                    &&& current@ == self.restore_generation@
                },
                CommandClass::Conflict => {
                    &&& r matches Err(StoreError::CommandConflict { command_id })
                    &&& command_id@ == command.id@
                },
                CommandClass::Exhausted => r matches Err(StoreError::InvariantViolated(_)),
                CommandClass::Malformed => r matches Err(StoreError::ConstraintViolated(_)),
            },
    {
        // 1. The authority fence, first and unconditionally.
        if !str_eq(command.epoch, self.restore_generation.as_str()) {
            return Err(
                StoreError::StaleCommandEpoch {
                    supplied: command.epoch.to_owned(),
                    current: self.restore_generation.clone(),
                },
            );
        }
        // 2. The durable ledger.
        match lookup(&self.commands, command.epoch, command.id) {
            Some(i) => {
                proof {
                    lemma_ledger_row(self.commands@, i as int, command.epoch@, command.id@);
                }
                let row = &self.commands[i];
                if !bytes_eq(row.request_hash.as_slice(), command.request_hash.as_slice()) {
                    return Err(StoreError::CommandConflict { command_id: command.id.to_owned() });
                }
                Ok(
                    Gate::Replayed {
                        cursor: JournalCursor {
                            epoch: row.journal_epoch.clone(),
                            sequence: row.sequence,
                        },
                        recorded_at: row.recorded_at,
                    },
                )
            },
            None => {
                if self.next_sequence >= i64::MAX {
                    return Err(
                        StoreError::InvariantViolated(
                            "the journal sequence allocator is exhausted".to_string(),
                        ),
                    );
                }
                let id_len: usize = command.id.unicode_len();
                let event_len: usize = command.event_type.unicode_len();
                if id_len < 1 || id_len > 128 || event_len < 1 || event_len > 128 {
                    return Err(
                        StoreError::ConstraintViolated(
                            "a command id and its event type are 1 to 128 characters".to_string(),
                        ),
                    );
                }
                Ok(Gate::Fresh)
            },
        }
    }

    /// Appends one Event at the allocator's next sequence and advances the
    /// allocator, returning the cursor it yielded.
    pub(crate) fn append_event(
        &mut self,
        event_type: &str,
        command_epoch: Option<&str>,
        command_id: Option<&str>,
    ) -> (cursor: JournalCursor)
        requires
            old(self).wf(),
            old(self).next_sequence < i64::MAX,
            command_epoch is Some == command_id is Some,
        ensures
            final(self).wf(),
            event_appended(
                *old(self),
                *final(self),
                event_type@,
                match command_epoch {
                    Some(e) => Some((e@, command_id->0@)),
                    None => None,
                },
            ),
            cursor.epoch@ == old(self).journal_epoch@,
            cursor.sequence == old(self).next_sequence,
            (Store { events: old(self).events, next_sequence: old(self).next_sequence, ..*final(self) })
                == *old(self),
    {
        let sequence: i64 = self.next_sequence;
        let event_id: String = crate::clock::random_hex_id();
        let recorded_at: i64 = crate::clock::unix_now();
        let event = EventRecord {
            event_id,
            journal_epoch: self.journal_epoch.clone(),
            sequence,
            event_type: event_type.to_owned(),
            recorded_at,
            command_epoch: match command_epoch {
                Some(e) => Some(e.to_owned()),
                None => None,
            },
            command_id: match command_id {
                Some(i) => Some(i.to_owned()),
                None => None,
            },
        };
        self.events.push(event);
        self.next_sequence = sequence + 1;
        let cursor = JournalCursor { epoch: self.journal_epoch.clone(), sequence };
        proof {
            assert(self.events@.drop_last() =~= old(self).events@);
            assert forall|i: int, j: int|
                0 <= i < j < self.events@.len() implies self.events@[i].sequence
                < self.events@[j].sequence by {
                if j == self.events@.len() - 1 {
                    assert(self.events@[i] == old(self).events@[i]);
                }
            }
        }
        cursor
    }

    /// Appends an Event that carries no command identity: controller
    /// bookkeeping committed alongside its own mutation.
    pub(crate) fn append_internal_event(&mut self, event_type: &str)
        requires
            old(self).wf(),
            old(self).next_sequence < i64::MAX,
        ensures
            final(self).wf(),
            event_appended(*old(self), *final(self), event_type@, None),
            (Store { events: old(self).events, next_sequence: old(self).next_sequence, ..*final(self) })
                == *old(self),
    {
        let _cursor = self.append_event(event_type, None, None);
    }

    /// Completes a new command: appends its Event at the next sequence and
    /// records its durable ledger row at that position.
    pub(crate) fn record_command(&mut self, command: &Command) -> (cursor: JournalCursor)
        requires
            old(self).wf(),
            class_of(*old(self), *command) is Fresh,
        ensures
            final(self).wf(),
            command_recorded(*old(self), *final(self), *command, cursor),
            (Store {
                events: old(self).events,
                next_sequence: old(self).next_sequence,
                commands: old(self).commands,
                ..*final(self)
            }) == *old(self),
    {
        let ghost before = *self;
        let cursor = self.append_event(command.event_type, Some(command.epoch), Some(command.id));
        let recorded_at: i64 = self.events[self.events.len() - 1].recorded_at;
        let row = CommandRow {
            command_epoch: command.epoch.to_owned(),
            command_id: command.id.to_owned(),
            request_hash: vstd::slice::slice_to_vec(command.request_hash.as_slice()),
            journal_epoch: cursor.epoch.clone(),
            sequence: cursor.sequence,
            recorded_at,
        };
        self.commands.push(row);
        proof {
            assert(self.commands@.drop_last() =~= before.commands@);
            assert(!ledger_has(before.commands@, command.epoch@, command.id@));
            let last = self.commands@.len() - 1;
            assert(self.commands@[last].command_epoch@ == command.epoch@);
            assert(self.commands@[last].command_id@ == command.id@);
            assert forall|i: int, j: int|
                0 <= i < self.commands@.len() && 0 <= j < self.commands@.len() && i != j implies !(
                #[trigger] self.commands@[i].command_epoch@
                    == #[trigger] self.commands@[j].command_epoch@
                    && self.commands@[i].command_id@ == self.commands@[j].command_id@) by {
                if i == last {
                    assert(self.commands@[j] == before.commands@[j]);
                    assert(!(before.commands@[j].command_epoch@ == command.epoch@
                        && before.commands@[j].command_id@ == command.id@));
                } else if j == last {
                    assert(self.commands@[i] == before.commands@[i]);
                    assert(!(before.commands@[i].command_epoch@ == command.epoch@
                        && before.commands@[i].command_id@ == command.id@));
                } else {
                    assert(self.commands@[i] == before.commands@[i]);
                    assert(self.commands@[j] == before.commands@[j]);
                }
            }
        }
        cursor
    }
}

} // verus!
