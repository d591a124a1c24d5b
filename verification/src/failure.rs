//! The failures that the library itself raises.

use vstd::prelude::*;

verus! {

/// What can go wrong around a browser operation, apart from the operation itself.
#[derive(Debug)]
pub enum Failure {
    /// The caller asked to stop.
    Cancelled,
    /// The time ran out; the limit in milliseconds.
    Timeout(u64),
    /// Anything else, in words.
    Message(String),
    /// A text that should have been JSON was not.
    Json(serde_json::Error),
}

} // verus!
