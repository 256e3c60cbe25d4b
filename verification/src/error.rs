//! The reasons for which an operation on a set is turned down.

use vstd::prelude::*;

verus! {

/// Why an operation on a set was turned down. The set is left as it was
/// whenever one of these is returned.
#[derive(Debug)]
pub enum BitSetError {
    /// The element lies outside the domain of the set.
    OutOfRange,
    /// The element lies inside the domain but is not a member.
    ElementNotFound,
}

} // verus!
