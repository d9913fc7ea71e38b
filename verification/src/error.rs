//! The kinds of failure that the engine tells apart.

use vstd::prelude::*;

verus! {

/// Why a request or a feed event could not be served. None of these ends
/// the process.
#[derive(Clone, Copy, Debug, PartialEq, Eq, Structural)]
pub enum ErrorKind {
    /// The requested user, group or rank does not exist.
    NotFound,
    /// A filter or sort request is malformed.
    ValidationFailure,
    /// The entity store is unreachable or rejected the operation.
    StoreUnavailable,
    /// The feed delivered an event with a required field missing.
    MalformedEvent,
}

} // verus!
