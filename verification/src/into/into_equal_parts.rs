//! The trait for splitting owned collections into owned near-equal parts.

use vstd::prelude::*;

verus! {

/// A trait for splitting owned collections into approximately equal owned
/// parts.
///
/// This trait is similar to [`EqualParts`](crate::EqualParts) but consumes
/// the collection and produces owned parts instead of borrowed slices. This
/// is useful when the data must be moved instead of just referenced, for
/// instance to hand each part to an independent worker.
pub trait IntoEqualParts: Sized {
    /// The type of items yielded by the iterator.
    type Item;

    /// The iterator type returned by
    /// [`into_equal_parts`](Self::into_equal_parts).
    type IntoIter;

    /// Consumes the collection and splits it into `num_parts` approximately
    /// equal owned parts.
    ///
    /// `num_parts` must be positive: a split into zero parts is rejected
    /// before any cursor is built.
    fn into_equal_parts(self, num_parts: usize) -> Self::IntoIter
        requires
            0 < num_parts,
    ;
}

} // verus!
