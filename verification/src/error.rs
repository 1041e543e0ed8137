//! The single failure mode of the repository: an index that does not name a
//! currently existing element.

use vstd::prelude::*;

verus! {

/// Returned whenever a supplied post or comment index is not a position into
/// the owning sequence at the time of the call.
#[derive(Debug, Clone, Copy, PartialEq, Eq, Structural)]
pub enum BlogError {
    OutOfRange,
}

} // verus!
