//! Instants and spans of time, counted in whole seconds and nanoseconds.
//!
//! The mathematical model of both is a single integer: a number of
//! nanoseconds. All contracts in this crate speak of that integer.

use vstd::prelude::*;

verus! {

/// The nanoseconds that stand for `seconds` whole seconds and `nanos`
/// further nanoseconds.
pub open spec fn total_nanos(seconds: int, nanos: int) -> int {
    seconds * 1_000_000_000 + nanos
}

/// The whole seconds of a span, rounded towards negative infinity.
pub open spec fn whole_seconds(span_nanos: int) -> int {
    span_nanos / 1_000_000_000
}

/// What is left of a span after its whole seconds: always in `0 .. 10^9`.
pub open spec fn subsec_nanos(span_nanos: int) -> int {
    span_nanos % 1_000_000_000
}

/// An instant: seconds since the Unix epoch and nanoseconds into that second.
#[derive(Clone, Copy, Debug, PartialEq, Eq, Structural)]
pub struct Timestamp {
    pub seconds: i64,
    pub nanos: i32,
}

/// A span of time: whole seconds and a nanosecond remainder.
#[derive(Clone, Copy, Debug, PartialEq, Eq, Structural)]
pub struct Duration {
    pub seconds: i64,
    pub nanos: i32,
}

impl View for Timestamp {
    type V = int;

    /// Nanoseconds since the Unix epoch.
    open spec fn view(&self) -> int {
        total_nanos(self.seconds as int, self.nanos as int)
    }
}

impl View for Duration {
    type V = int;

    /// Length in nanoseconds.
    open spec fn view(&self) -> int {
        total_nanos(self.seconds as int, self.nanos as int)
    }
}

impl Timestamp {
    /// The nanosecond part lies within one second, so that the pair names
    /// its instant in exactly one way.
    pub open spec fn well_formed(&self) -> bool {
        0 <= self.nanos < 1_000_000_000
    }

    pub fn new(seconds: i64, nanos: i32) -> (t: Timestamp)
        ensures
            t.seconds == seconds,
            t.nanos == nanos,
    {
        Timestamp { seconds, nanos }
    }

    /// Nanoseconds since the Unix epoch, as a machine integer.
    pub fn epoch_nanos(&self) -> (n: i128)
        ensures
            n == self@,
    {
        self.seconds as i128 * 1_000_000_000 + self.nanos as i128
    }

    /// The signed span from `earlier` to `self`, in nanoseconds.
    pub fn nanos_since(&self, earlier: &Timestamp) -> (n: i128)
        ensures
            n == self@ - earlier@,
    {
        self.epoch_nanos() - earlier.epoch_nanos()
    }

    /// Whether `self` lies strictly before `other`.
    pub fn is_before(&self, other: &Timestamp) -> (b: bool)
        ensures
            b == (self@ < other@),
    {
        self.epoch_nanos() < other.epoch_nanos()
    }
}

impl Duration {
    /// The nanosecond part lies within one second.
    pub open spec fn well_formed(&self) -> bool {
        0 <= self.nanos < 1_000_000_000
    }

    pub fn new(seconds: i64, nanos: i32) -> (d: Duration)
        ensures
            d.seconds == seconds,
            d.nanos == nanos,
    {
        Duration { seconds, nanos }
    }

    /// A span of `seconds` whole seconds.
    pub fn from_seconds(seconds: i64) -> (d: Duration)
        ensures
            d.seconds == seconds,
            d.nanos == 0,
            d@ == seconds * 1_000_000_000,
            d.well_formed(),
    {
        Duration { seconds, nanos: 0 }
    }

    /// Length in nanoseconds, as a machine integer.
    pub fn total_nanos(&self) -> (n: i128)
        ensures
            n == self@,
    {
        self.seconds as i128 * 1_000_000_000 + self.nanos as i128
    }
}

/// Every integer has exactly one well-formed split into seconds and
/// nanoseconds.
pub proof fn lemma_split_unique(s1: int, n1: int, s2: int, n2: int)
    requires
        0 <= n1 < 1_000_000_000,
        0 <= n2 < 1_000_000_000,
        total_nanos(s1, n1) == total_nanos(s2, n2),
    ensures
        s1 == s2,
        n1 == n2,
{
}

/// Splitting a total into whole seconds and remainder loses nothing.
pub proof fn lemma_split_total(span_nanos: int)
    ensures
        total_nanos(whole_seconds(span_nanos), subsec_nanos(span_nanos)) == span_nanos,
        0 <= subsec_nanos(span_nanos) < 1_000_000_000,
{
}

} // verus!
