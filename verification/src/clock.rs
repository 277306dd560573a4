//! The two facts the store takes from the machine: the current time and
//! fresh unpredictable identifiers.

use vstd::prelude::*;

use crate::text::append_hex_u64;

verus! {

/// How long ago the Unix epoch was, by the machine's clock: calls
/// `SystemTime::elapsed` on `std::time::UNIX_EPOCH`, and reads a clock set
/// before the epoch as `None`. Nothing is promised about the value: two
/// calls may disagree in either direction.
#[verifier::external_body]
fn elapsed_since_epoch() -> (d: Option<core::time::Duration>) {
    match std::time::UNIX_EPOCH.elapsed() {
        Ok(elapsed) => Some(elapsed),
        Err(_) => None,
    }
}

/// The whole seconds of a duration: calls `Duration::as_secs`.
#[verifier::external_body]
fn whole_seconds(d: &core::time::Duration) -> (s: u64) {
    d.as_secs()
}

/// The current time in whole seconds since the Unix epoch; a clock set
/// before the epoch reads as zero, and one past the `i64` range as its
/// maximum.
pub(crate) fn unix_now() -> (t: i64)
    ensures
        t >= 0,
{
    match elapsed_since_epoch() {
        Some(d) => {
            let secs: u64 = whole_seconds(&d);
            if secs > 0x7fff_ffff_ffff_ffffu64 {
                0x7fff_ffff_ffff_ffffi64
            } else {
                secs as i64
            }
        },
        None => 0,
    }
}

/// A new `RandomState`: calls `RandomState::new`, whose keys std seeds
/// from the operating system's randomness once per process and varies per
/// instance. Nothing is promised about the keys.
#[verifier::external_body]
fn fresh_random_state() -> (s: std::collections::hash_map::RandomState) {
    std::collections::hash_map::RandomState::new()
}

/// Hashes a constant under `state`: calls `BuildHasher::hash_one`. Nothing
/// is promised about the value.
#[verifier::external_body]
fn hash_constant(state: &std::collections::hash_map::RandomState) -> (v: u64) {
    std::hash::BuildHasher::hash_one(state, 0x5041_4e54u32)
}

/// A fresh unpredictable 64-bit value: a constant hashed under a new
/// `RandomState`.
pub(crate) fn random_u64() -> (v: u64) {
    let state = fresh_random_state();
    hash_constant(&state)
}

/// A fresh 32-character lowercase hexadecimal identifier: 128 unpredictable
/// bits.
pub(crate) fn random_hex_id() -> (id: String)
    ensures
        id@.len() == 32,
{
    let mut id: String = String::new();
    append_hex_u64(&mut id, random_u64());
    append_hex_u64(&mut id, random_u64());
    id
}

} // verus!
