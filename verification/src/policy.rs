//! The connection policy every store connection must satisfy, judged from
//! what the database reads back after the policy was applied: WAL journaling,
//! `synchronous = FULL`, foreign keys on, untrusted schema, a 5000 ms busy
//! timeout and Pantheon's application id; a reader must also be read-only at
//! the database level. Applying a setting proves nothing until it reads back.

use vstd::prelude::*;

use crate::error::StoreError;
use crate::text::{i64_to_text, int_text};
use vstd::string::StringExecFns;

verus! {

/// The busy timeout every connection must read back, in milliseconds.
pub const BUSY_TIMEOUT_MS: i64 = 5000;

/// The `application_id` stamped into every Pantheon database ("PANT").
pub const APPLICATION_ID: i64 = 0x5041_4e54;

/// What a connection reads back for each policy setting.
#[derive(Debug, Clone, PartialEq, Eq)]
pub struct PolicyReadback {
    pub journal_mode: String,
    pub synchronous: i64,
    pub foreign_keys: i64,
    pub trusted_schema: i64,
    pub busy_timeout: i64,
    pub application_id: i64,
}

/// Whether `s` spells `wal` in any ASCII case.
pub open spec fn is_wal(s: Seq<char>) -> bool {
    &&& s.len() == 3
    &&& (s[0] == 'w' || s[0] == 'W')
    &&& (s[1] == 'a' || s[1] == 'A')
    &&& (s[2] == 'l' || s[2] == 'L')
}

/// Passes when `condition` holds; otherwise fails policy verification with
/// `detail`.
pub fn require(condition: bool, detail: &str) -> (r: Result<(), StoreError>)
    ensures
        condition ==> r is Ok,
        !condition ==> (r matches Err(StoreError::PolicyVerificationFailed(d)) && d@ == detail@),
{
    if condition {
        Ok(())
    } else {
        Err(StoreError::PolicyVerificationFailed(detail.to_owned()))
    }
}

/// Whether a read-back journal mode is WAL, ignoring ASCII case.
fn journal_mode_is_wal(mode: &str) -> (r: bool)
    ensures
        r == is_wal(mode@),
{
    let len: usize = mode.unicode_len();
    if len != 3 {
        return false;
    }
    let a: char = mode.get_char(0);
    let b: char = mode.get_char(1);
    let c: char = mode.get_char(2);
    (a == 'w' || a == 'W') && (b == 'a' || b == 'A') && (c == 'l' || c == 'L')
}

/// What the first check `r` fails reports, in the order the policy is
/// applied: journal mode, the connection-scoped settings, then the
/// application id. `None` when every check passes.
pub open spec fn writer_policy_failure(r: PolicyReadback) -> Option<Seq<char>> {
    if !is_wal(r.journal_mode@) {
        Some("journal_mode is "@ + r.journal_mode@ + ", not wal"@)
    } else if r.synchronous != 2 {
        Some("synchronous is "@ + int_text(r.synchronous as int) + ", not FULL (2)"@)
    } else if r.foreign_keys != 1 {
        Some("foreign_keys is "@ + int_text(r.foreign_keys as int) + ", not ON"@)
    } else if r.trusted_schema != 0 {
        Some("trusted_schema is "@ + int_text(r.trusted_schema as int) + ", not OFF"@)
    } else if r.busy_timeout != BUSY_TIMEOUT_MS {
        Some("busy_timeout is "@ + int_text(r.busy_timeout as int) + "ms, not 5000ms"@)
    } else if r.application_id != APPLICATION_ID {
        Some("application_id is "@ + int_text(r.application_id as int) + ", not 1346457172"@)
    } else {
        None
    }
}

/// `prefix`, `value` and `suffix`, one after another.
fn detail(prefix: &str, value: &str, suffix: &str) -> (d: String)
    ensures
        d@ == prefix@ + value@ + suffix@,
{
    let mut d: String = prefix.to_owned();
    d.append(value);
    d.append(suffix);
    d
}

/// Passes when `condition` holds; otherwise fails policy verification with
/// `prefix`, the read-back `value` and `suffix` as the detail.
fn require_setting(condition: bool, prefix: &str, value: i64, suffix: &str) -> (r: Result<(), StoreError>)
    ensures
        condition ==> r is Ok,
        !condition ==> (r matches Err(StoreError::PolicyVerificationFailed(d)) && d@ == prefix@ + int_text(
            value as int,
        ) + suffix@),
{
    if condition {
        Ok(())
    } else {
        let text = i64_to_text(value);
        Err(StoreError::PolicyVerificationFailed(detail(prefix, text.as_str(), suffix)))
    }
}

/// Verifies the writer's policy: WAL, the shared settings, and the
/// application id, in that order; a failure names the first setting that
/// read back wrong and the value it read back as.
pub fn verify_writer_policy(r: &PolicyReadback) -> (out: Result<(), StoreError>)
    ensures
        match writer_policy_failure(*r) {
            None => out is Ok,
            Some(d) => out matches Err(StoreError::PolicyVerificationFailed(e)) && e@ == d,
        },
{
    if !journal_mode_is_wal(r.journal_mode.as_str()) {
        return Err(
            StoreError::PolicyVerificationFailed(detail("journal_mode is ", r.journal_mode.as_str(), ", not wal")),
        );
    }
    require_setting(r.synchronous == 2, "synchronous is ", r.synchronous, ", not FULL (2)")?;
    require_setting(r.foreign_keys == 1, "foreign_keys is ", r.foreign_keys, ", not ON")?;
    require_setting(r.trusted_schema == 0, "trusted_schema is ", r.trusted_schema, ", not OFF")?;
    require_setting(r.busy_timeout == BUSY_TIMEOUT_MS, "busy_timeout is ", r.busy_timeout, "ms, not 5000ms")?;
    require_setting(r.application_id == APPLICATION_ID, "application_id is ", r.application_id, ", not 1346457172")?;
    Ok(())
}

/// Verifies a reader's policy: everything the writer established, and that
/// the connection is read-only at the database level.
pub fn verify_reader_policy(r: &PolicyReadback, read_only: bool) -> (out: Result<(), StoreError>)
    ensures
        match writer_policy_failure(*r) {
            Some(d) => out matches Err(StoreError::PolicyVerificationFailed(e)) && e@ == d,
            None => if read_only {
                out is Ok
            } else {
                out matches Err(StoreError::PolicyVerificationFailed(e)) && e@
                    == "the read connection is not read-only at the SQLite level"@
            },
        },
{
    verify_writer_policy(r)?;
    require(read_only, "the read connection is not read-only at the SQLite level")?;
    Ok(())
}

} // verus!
