//! Simulated time, counted in whole nanoseconds.

use vstd::prelude::*;

verus! {

pub const NANOS_PER_MILLI: u64 = 1_000_000;

pub const NANOS_PER_SECOND: u64 = 1_000_000_000;

/// A span of simulated time. It is given and read in milliseconds as a rule,
/// and kept in nanoseconds so that a tick of a sixtieth of a second is exact.
#[derive(Clone, Copy, Debug, PartialEq, Eq, Structural)]
pub struct Millis {
    pub nanos: u64,
}

impl Millis {
    /// The span of `nanos` nanoseconds.
    pub fn from_nanos(nanos: u64) -> (r: Millis)
        ensures
            r.nanos == nanos,
    {
        Millis { nanos }
    }

    /// The span of `millis` milliseconds, where it can be counted in `u64`
    /// nanoseconds.
    pub fn from_millis(millis: u64) -> (r: Option<Millis>)
        ensures
            match r {
                Some(m) => m.nanos == millis * NANOS_PER_MILLI,
                None => millis * NANOS_PER_MILLI > u64::MAX,
            },
    {
        match millis.checked_mul(NANOS_PER_MILLI) {
            Some(nanos) => Some(Millis { nanos }),
            None => None,
        }
    }

    /// The span of `secs` seconds and `subsec_nanos` nanoseconds, where it can
    /// be counted in `u64` nanoseconds.
    pub fn from_parts(secs: u64, subsec_nanos: u32) -> (r: Option<Millis>)
        ensures
            match r {
                Some(m) => m.nanos == secs * NANOS_PER_SECOND + subsec_nanos,
                None => secs * NANOS_PER_SECOND + subsec_nanos > u64::MAX,
            },
    {
        match secs.checked_mul(NANOS_PER_SECOND) {
            Some(whole) => match whole.checked_add(subsec_nanos as u64) {
                Some(nanos) => Some(Millis { nanos }),
                None => None,
            },
            None => None,
        }
    }

    /// The whole seconds of the span.
    pub fn as_seconds(&self) -> (r: u64)
        ensures
            r == self.nanos / NANOS_PER_SECOND,
    {
        self.nanos / NANOS_PER_SECOND
    }

    /// The whole milliseconds of the span.
    pub fn as_millis(&self) -> (r: u64)
        ensures
            r == self.nanos / NANOS_PER_MILLI,
    {
        self.nanos / NANOS_PER_MILLI
    }

    /// The span in nanoseconds.
    pub fn as_nanos(&self) -> (r: u64)
        ensures
            r == self.nanos,
    {
        self.nanos
    }

    /// The sum of two spans, where it can be counted in `u64` nanoseconds.
    pub fn checked_add(self, other: Millis) -> (r: Option<Millis>)
        ensures
            match r {
                Some(m) => m.nanos == self.nanos + other.nanos,
                None => self.nanos + other.nanos > u64::MAX,
            },
    {
        match self.nanos.checked_add(other.nanos) {
            Some(nanos) => Some(Millis { nanos }),
            None => None,
        }
    }

    /// What is left of this span after `other`, where `other` is not longer.
    pub fn checked_sub(self, other: Millis) -> (r: Option<Millis>)
        ensures
            match r {
                Some(m) => m.nanos == self.nanos - other.nanos,
                None => self.nanos < other.nanos,
            },
    {
        match self.nanos.checked_sub(other.nanos) {
            Some(nanos) => Some(Millis { nanos }),
            None => None,
        }
    }
}

} // verus!
