//! Read paths the Operator Control surface needs: the journal head, Event
//! history after a cursor, and the cursor's wire spelling.

use vstd::prelude::*;

use crate::order::{sort_by_text, sorted_by_text, TextKeyed};
use crate::error::StoreError;
use crate::planning::GoalRecord;
use crate::store::Store;
use crate::text::{copy_text_option, i64_to_text, int_text, parse_i64, parse_int_spec};

verus! {

/// A durable position in the Event Journal.
#[derive(Debug, Clone, PartialEq, Eq)]
pub struct Cursor {
    pub journal_epoch: String,
    /// The last sequence included in the corresponding snapshot. A watch
    /// starts strictly after this.
    pub sequence: i64,
}

/// The wire spelling of a cursor: `<epoch>:<sequence>`.
pub open spec fn wire_text(epoch: Seq<char>, sequence: i64) -> Seq<char> {
    epoch + seq![':'] + int_text(sequence as int)
}

/// The position of the first `:` in `s`, or `s.len()` when there is none.
pub open spec fn first_colon(s: Seq<char>) -> int
    decreases s.len(),
{
    if s.len() == 0 {
        0
    } else if s[0] == ':' {
        0
    } else {
        1 + first_colon(s.subrange(1, s.len() as int))
    }
}

/// What parsing the wire spelling `s` yields: split at the first `:`, a
/// nonempty epoch before it and a decimal `i64` after it.
pub open spec fn parse_wire(s: Seq<char>) -> Option<(Seq<char>, i64)> {
    let k = first_colon(s);
    if k >= s.len() || k == 0 {
        None
    } else {
        match parse_int_spec(s.subrange(k + 1, s.len() as int)) {
            Some(v) => Some((s.subrange(0, k), v as i64)),
            None => None,
        }
    }
}

proof fn lemma_first_colon_bounds(s: Seq<char>)
    ensures
        0 <= first_colon(s) <= s.len(),
        first_colon(s) < s.len() ==> s[first_colon(s)] == ':',
        forall|i: int| 0 <= i < first_colon(s) ==> s[i] != ':',
    decreases s.len(),
{
    if s.len() > 0 && s[0] != ':' {
        let t = s.subrange(1, s.len() as int);
        lemma_first_colon_bounds(t);
        assert forall|i: int| 0 <= i < first_colon(s) implies s[i] != ':' by {
            if i > 0 {
                assert(s[i] == t[i - 1]);
            }
        }
    }
}

proof fn lemma_first_colon_of_prefix(a: Seq<char>, b: Seq<char>)
    requires
        !a.contains(':'),
        b.len() > 0,
        b[0] == ':',
    ensures
        first_colon(a + b) == a.len(),
    decreases a.len(),
{
    if a.len() == 0 {
        assert(a + b =~= b);
    } else {
        let t = a.subrange(1, a.len() as int);
        assert(!t.contains(':')) by {
            if t.contains(':') {
                let i = choose|i: int| 0 <= i < t.len() && t[i] == ':';
                assert(a[i + 1] == ':');
            }
        }
        assert(a[0] != ':') by {
            if a[0] == ':' {
                assert(a.contains(':'));
            }
        }
        lemma_first_colon_of_prefix(t, b);
        assert((a + b).subrange(1, (a + b).len() as int) =~= t + b);
    }
}

/// A cursor whose epoch is nonempty and free of `:` survives its wire form
/// exactly.
pub proof fn lemma_cursor_wire_round_trip(epoch: Seq<char>, sequence: i64)
    requires
        epoch.len() > 0,
        !epoch.contains(':'),
    ensures
        parse_wire(wire_text(epoch, sequence)) == Some((epoch, sequence)),
{
    let w = wire_text(epoch, sequence);
    let rest = seq![':'] + int_text(sequence as int);
    assert(w =~= epoch + rest);
    lemma_first_colon_of_prefix(epoch, rest);
    crate::text::lemma_parse_int_text(sequence);
    assert(w.subrange(epoch.len() + 1int, w.len() as int) =~= int_text(sequence as int));
    assert(w.subrange(0, epoch.len() as int) =~= epoch);
}

impl Cursor {
    /// The wire spelling, `<epoch>:<sequence>`.
    pub fn to_wire(&self) -> (r: String)
        ensures
            r@ == wire_text(self.journal_epoch@, self.sequence),
    {
        let mut out: String = self.journal_epoch.clone();
        proof {
            reveal_strlit(":");
        }
        out.append(":");
        let digits: String = i64_to_text(self.sequence);
        out.append(digits.as_str());
        assert(out@ =~= wire_text(self.journal_epoch@, self.sequence));
        out
    }

    /// Parses the wire spelling.
    pub fn parse(text: &str) -> (r: Option<Cursor>)
        ensures
            match parse_wire(text@) {
                Some((epoch, sequence)) => (r matches Some(c) && c.journal_epoch@ == epoch
                    && c.sequence == sequence),
                None => r is None,
            },
    {
        let len: usize = text.unicode_len();
        proof {
            lemma_first_colon_bounds(text@);
        }
        let mut k: usize = 0;
        while k < len && text.get_char(k) != ':'
            invariant
                len == text@.len(),
                k <= len,
                forall|i: int| 0 <= i < k ==> text@[i] != ':',
                0 <= first_colon(text@) <= text@.len(),
                first_colon(text@) < text@.len() ==> text@[first_colon(text@)] == ':',
                forall|i: int| 0 <= i < first_colon(text@) ==> text@[i] != ':',
            decreases len - k,
        {
            k = k + 1;
        }
        assert(k == first_colon(text@)) by {
            if k < first_colon(text@) {
                assert(text@[k as int] == ':');
            }
            if k > first_colon(text@) {
                assert(text@[first_colon(text@)] != ':');
            }
        }
        if k >= len || k == 0 {
            return None;
        }
        let epoch: &str = text.substring_char(0, k);
        let sequence_text: &str = text.substring_char(k + 1, len);
        match parse_i64(sequence_text) {
            Some(sequence) => Some(Cursor { journal_epoch: epoch.to_owned(), sequence }),
            None => None,
        }
    }
}

/// One durable Event, as history.
#[derive(Debug, Clone, PartialEq, Eq)]
pub struct EventRecord {
    pub event_id: String,
    pub journal_epoch: String,
    pub sequence: i64,
    pub event_type: String,
    pub recorded_at: i64,
    pub command_epoch: Option<String>,
    pub command_id: Option<String>,
}

impl EventRecord {
    /// This Event's resumable cursor.
    pub fn cursor(&self) -> (r: Cursor)
        ensures
            r.journal_epoch == self.journal_epoch,
            r.sequence == self.sequence,
    {
        Cursor { journal_epoch: self.journal_epoch.clone(), sequence: self.sequence }
    }

    /// An equal copy of this record.
    pub fn copy(&self) -> (r: EventRecord)
        ensures
            r == *self,
    {
        EventRecord {
            event_id: self.event_id.clone(),
            journal_epoch: self.journal_epoch.clone(),
            sequence: self.sequence,
            event_type: self.event_type.clone(),
            recorded_at: self.recorded_at,
            command_epoch: copy_text_option(&self.command_epoch),
            command_id: copy_text_option(&self.command_id),
        }
    }
}

/// Why a cursor cannot be resumed from.
#[allow(inconsistent_fields)]
#[derive(Debug, Clone, PartialEq, Eq)]
pub enum CursorError {
    /// The cursor names a journal history this installation is not on.
    UnknownEpoch { supplied: String, current: String },
    /// The cursor is ahead of anything committed.
    AheadOfJournal { supplied: i64, head: i64 },
}

/// The number of leading Events at or before `sequence`.
pub open spec fn events_through(events: Seq<EventRecord>, sequence: i64) -> int
    decreases events.len(),
{
    if events.len() == 0 {
        0
    } else if events[0].sequence <= sequence {
        1 + events_through(events.subrange(1, events.len() as int), sequence)
    } else {
        0
    }
}

/// The Events strictly after `sequence`, oldest first, at most `limit` of
/// them (a negative limit means no bound), from a journal in sequence order.
pub open spec fn events_after_spec(events: Seq<EventRecord>, sequence: i64, limit: i64) -> Seq<EventRecord> {
    let start = events_through(events, sequence);
    let available = events.len() - start;
    let take = if limit < 0 || limit >= available {
        available
    } else {
        limit as int
    };
    events.subrange(start, start + take)
}

pub proof fn lemma_events_through(events: Seq<EventRecord>, sequence: i64)
    requires
        forall|i: int, j: int|
            0 <= i < j < events.len() ==> #[trigger] events[i].sequence < #[trigger] events[j].sequence,
    ensures
        0 <= events_through(events, sequence) <= events.len(),
        forall|i: int| 0 <= i < events_through(events, sequence) ==> events[i].sequence <= sequence,
        forall|i: int|
            events_through(events, sequence) <= i < events.len() ==> events[i].sequence > sequence,
    decreases events.len(),
{
    if events.len() > 0 {
        let t = events.subrange(1, events.len() as int);
        assert forall|i: int, j: int| 0 <= i < j < t.len() implies #[trigger] t[i].sequence
            < #[trigger] t[j].sequence by {
            assert(t[i] == events[i + 1] && t[j] == events[j + 1]);
        }
        lemma_events_through(t, sequence);
        if events[0].sequence <= sequence {
            assert forall|i: int|
                0 <= i < events_through(events, sequence) implies events[i].sequence
                <= sequence by {
                if i > 0 {
                    assert(events[i] == t[i - 1]);
                }
            }
            assert forall|i: int|
                events_through(events, sequence) <= i < events.len() implies events[i].sequence
                > sequence by {
                assert(events[i] == t[i - 1]);
            }
        } else {
            assert forall|i: int| 0 <= i < events.len() implies events[i].sequence > sequence by {
                if i > 0 {
                    assert(events[0].sequence < events[i].sequence);
                }
            }
        }
    }
}

impl Store {
    /// The journal head: the current epoch and the last committed sequence.
    /// A fresh installation reports 0, meaning "before anything".
    pub fn journal_head(&self) -> (r: Cursor)
        requires
            self.wf(),
        ensures
            r.journal_epoch@ == self.journal_epoch@,
            r.sequence == self.next_sequence - 1,
    {
        Cursor { journal_epoch: self.journal_epoch.clone(), sequence: self.next_sequence - 1 }
    }

    /// The schema version this state is migrated to: the highest version
    /// its migration bookkeeping records, not a compiled constant.
    pub fn schema_version(&self) -> (r: i64)
        ensures
            r == crate::migrations::applied_version(self.schema_migrations@),
    {
        crate::migrations::applied_version_of(&self.schema_migrations)
    }

    /// Events committed strictly after `cursor`, oldest first, at most
    /// `limit` of them (a negative limit means no bound). A cursor on
    /// another journal history, or ahead of the head, is refused rather
    /// than silently restarted.
    pub fn events_after(&self, cursor: &Cursor, limit: i64) -> (r: Result<Vec<EventRecord>, CursorError>)
        requires
            self.wf(),
        ensures
            cursor.journal_epoch@ != self.journal_epoch@ ==> (r matches Err(
                CursorError::UnknownEpoch { supplied, current },
            ) && supplied@ == cursor.journal_epoch@ && current@ == self.journal_epoch@),
            cursor.journal_epoch@ == self.journal_epoch@ && cursor.sequence > self.next_sequence
                - 1 ==> r == Err::<Vec<EventRecord>, CursorError>(
                CursorError::AheadOfJournal {
                    supplied: cursor.sequence,
                    head: (self.next_sequence - 1) as i64,
                },
            ),
            cursor.journal_epoch@ == self.journal_epoch@ && cursor.sequence <= self.next_sequence
                - 1 ==> (r matches Ok(events) && events@ == events_after_spec(
                self.events@,
                cursor.sequence,
                limit,
            )),
    {
        let head: Cursor = self.journal_head();
        if cursor.journal_epoch != head.journal_epoch {
            return Err(
                CursorError::UnknownEpoch {
                    supplied: cursor.journal_epoch.clone(),
                    current: head.journal_epoch,
                },
            );
        }
        if cursor.sequence > head.sequence {
            return Err(
                CursorError::AheadOfJournal { supplied: cursor.sequence, head: head.sequence },
            );
        }
        proof {
            lemma_events_through(self.events@, cursor.sequence);
        }
        let ghost start = events_through(self.events@, cursor.sequence);
        let len: usize = self.events.len();
        let mut i: usize = 0;
        while i < len && self.events[i].sequence <= cursor.sequence
            invariant
                len == self.events@.len(),
                i <= len,
                forall|j: int| 0 <= j < i ==> self.events@[j].sequence <= cursor.sequence,
            decreases len - i,
        {
            i = i + 1;
        }
        assert(i == start) by {
            if i < start {
                assert(self.events@[i as int].sequence <= cursor.sequence);
            }
            if i > start {
                assert(self.events@[start].sequence <= cursor.sequence);
            }
        }
        let mut out: Vec<EventRecord> = Vec::new();
        while i < len && (limit < 0 || (out.len() as i64) < limit)
            invariant
                len == self.events@.len(),
                0 <= start <= i <= len,
                out@ == self.events@.subrange(start, i as int),
                limit >= 0 ==> out@.len() <= limit,
            decreases len - i,
        {
            out.push(self.events[i].copy());
            i = i + 1;
            assert(out@ =~= self.events@.subrange(start, i as int));
        }
        let ghost spec_out = events_after_spec(self.events@, cursor.sequence, limit);
        assert(out@ =~= spec_out);
        Ok(out)
    }
}

impl TextKeyed for GoalRecord {
    open spec fn text_key(&self) -> Seq<char> {
        self.id@
    }

    fn key_text(&self) -> (r: &str) {
        self.id.as_str()
    }
}

/// A consistent view of the Goals plus the journal position it corresponds
/// to.
#[derive(Debug, Clone, PartialEq, Eq)]
pub struct GoalSnapshot {
    /// Every Goal, in id order.
    pub goals: Vec<GoalRecord>,
    pub cursor: Cursor,
}

impl Store {
    /// Every Goal, with the journal cursor the list corresponds to. Both come
    /// from the same state, so the cursor is the position of exactly this
    /// list: watching after it can neither skip nor repeat an Event.
    pub fn goal_snapshot(&self) -> (r: Result<GoalSnapshot, StoreError>)
        requires
            self.wf(),
        ensures
            match r {
                Ok(snapshot) => {
                    &&& snapshot.goals@ == sorted_by_text(self.goals@)
                    &&& snapshot.cursor.journal_epoch@ == self.journal_epoch@
                    &&& snapshot.cursor.sequence == self.next_sequence - 1
                },
                Err(_) => false,
            },
    {
        let mut goals: Vec<GoalRecord> = Vec::new();
        let mut i: usize = 0;
        while i < self.goals.len()
            invariant
                i <= self.goals@.len(),
                goals@ == self.goals@.subrange(0, i as int),
            decreases self.goals@.len() - i,
        {
            goals.push(self.goals[i].copy());
            i = i + 1;
            proof {
                assert(goals@ =~= self.goals@.subrange(0, i as int));
            }
        }
        proof {
            assert(goals@ =~= self.goals@);
        }
        Ok(GoalSnapshot { goals: sort_by_text(goals), cursor: self.journal_head() })
    }
}

} // verus!
