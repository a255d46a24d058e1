//! A single sensor reading: a measured concentration and the instant it
//! was taken.

use vstd::prelude::*;

verus! {

/// One sensor reading. `value_mppm` is the measured concentration in
/// milli-ppm (1 ppm = 1000 milli-ppm); `timestamp` is in whole unix
/// seconds. Immutable once constructed.
#[derive(Clone, Copy, Debug, PartialEq, Eq, Structural)]
pub struct Reading {
    pub value_mppm: i64,
    pub timestamp: i64,
}

impl Reading {
    pub fn new(value_mppm: i64, timestamp: i64) -> (r: Reading)
        ensures
            r.value_mppm == value_mppm,
            r.timestamp == timestamp,
    {
        Reading { value_mppm, timestamp }
    }
}

} // verus!
