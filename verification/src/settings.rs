//! The two values that configure accrual.

use vstd::prelude::*;

verus! {

/// Accrual configuration, supplied from outside and free to change between
/// runs.
#[derive(Clone, Copy, Debug, PartialEq, Eq, Structural)]
pub struct Settings {
    /// Base payout rate in currency units per minute.
    pub default_payout: i32,
    /// The active window in seconds: the longest gap between two messages
    /// of a user who still counts as continuously present.
    pub active_time: i32,
}

impl Settings {
    /// The active window in nanoseconds.
    pub open spec fn window_nanos(&self) -> int {
        self.active_time as int * 1_000_000_000
    }
}

impl Default for Settings {
    /// One unit per minute and a window of five seconds.
    fn default() -> (settings: Settings)
        ensures
            settings.default_payout == 1,
            settings.active_time == 5,
    {
        Settings { default_payout: 1, active_time: 5 }
    }
}

} // verus!
