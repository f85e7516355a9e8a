//! The item type of the merged sequence.
use vstd::prelude::*;

verus! {

/// One result of the merge.
#[derive(Debug, Clone, Copy, PartialEq, Eq, PartialOrd, Ord, Hash)]
pub enum EitherOrBoth<L, R> {
    /// An item from each side, taken in the same position.
    Both(L, R),
    /// An item from the left side after the right side had ended.
    Left(L),
    /// An item from the right side after the left side had ended.
    Right(R),
}

} // verus!
