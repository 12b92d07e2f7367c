//! The one way in which reading or writing an address can fail.

use vstd::prelude::*;

verus! {

/// Failure to read or write an address.
#[derive(Clone, Copy, Debug, PartialEq, Eq, Structural)]
pub enum MacParseError {
    /// The bytes on hand were not the `expected` number; `actual` were there.
    InvalidLength { expected: usize, actual: usize },
}

} // verus!
