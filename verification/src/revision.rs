//! The optimistic-concurrency revision carried by every revisioned row.

use vstd::prelude::*;

verus! {

/// The revision of one revisioned authoritative row. A mutation names the
/// revision it observed and succeeds only while that is still current.
#[derive(Debug, Clone, Copy, PartialEq, Eq, Structural)]
pub struct Revision {
    pub value: i64,
}

impl Revision {
    /// The revision with the given number.
    pub fn new(value: i64) -> (r: Revision)
        ensures
            r.value == value,
    {
        Revision { value }
    }

    /// The revision's number.
    pub fn get(&self) -> (v: i64)
        ensures
            v == self.value,
    {
        self.value
    }
}

} // verus!
