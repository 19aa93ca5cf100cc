//! Error taxonomy of the renderer.

use vstd::prelude::*;

verus! {

/// Errors reported by the renderer.
///
/// Configuration problems are rejected before rendering begins and are
/// reported as [`MyError::InvalidArgument`]; unrecoverable logic or resource
/// failures are [`MyError::InternalError`].  There is no retry policy: the
/// computation is deterministic given its inputs.
#[derive(Debug)]
pub enum MyError {
    /// Unrecoverable logic errors.
    InternalError(String),
    /// An input value that the renderer cannot accept.
    InvalidArgument(String),
}

} // verus!
