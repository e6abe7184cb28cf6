//! The failures that end a run before any target is dispatched.

use vstd::prelude::*;

verus! {

/// A fatal error: the run is abandoned and nothing is scanned.
#[derive(Clone, Copy, Debug, PartialEq, Eq, Structural)]
pub enum ScanError {
    /// The subnet is not an address followed by a prefix length that fits it.
    InvalidSubnet,
    /// A numeric option is not a number in its range.
    InvalidArgument,
}

} // verus!
