//! The one way an operation on the list can fail.

use vstd::prelude::*;

verus! {

/// A position among the shown entries that no entry has.
///
/// `index` is the position that was asked for, `shown` the number of entries
/// that passed the filter at that moment; `index >= shown`.
#[derive(Clone, Copy, Debug, PartialEq, Eq)]
pub struct OutOfRange {
    pub index: usize,
    pub shown: usize,
}

} // verus!
