//! Time values.

use vstd::prelude::*;

verus! {

/// A time span or point in time, in nanoseconds.
#[derive(Clone, Copy, PartialEq, Eq, Structural)]
pub struct Ktime {
    ns: i64,
}

impl Ktime {
    /// The number of nanoseconds of this value.
    pub closed spec fn nanos(self) -> i64 {
        self.ns
    }

    /// Makes a value of `ns` nanoseconds.
    pub fn from_ns(ns: i64) -> (r: Ktime)
        ensures
            r.nanos() == ns,
    {
        Ktime { ns }
    }

    /// Returns the number of nanoseconds of this value.
    pub fn to_ns(self) -> (r: i64)
        ensures
            r == self.nanos(),
    {
        self.ns
    }
}

} // verus!
