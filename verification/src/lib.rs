//! Split a sequence into a requested number of contiguous, near-equal parts.
//!
//! The split is deterministic: every part is either `ceil(N / K)` elements
//! long or one element shorter, the longer parts come first, and the parts
//! concatenate back to the original sequence. Two flavors are offered: a
//! borrowing one that yields sub-slices of an existing slice, and a consuming
//! one that takes a `Vec` and yields independently owned `Vec` parts.

pub mod into;
pub mod plan;

pub use crate::into::into_equal_parts::IntoEqualParts;
pub use crate::into::vec::IntoEqualPartsIter;

use vstd::prelude::*;
use vstd::slice::slice_subrange;

verus! {

/// A trait for splitting collections into approximately equal parts.
///
/// The parts are as equal in size as possible; when the total number of
/// elements does not divide evenly, the larger parts come first.
pub trait EqualParts: Sized {
    /// The type of items yielded by the iterator.
    type Item;

    /// The iterator type returned by [`equal_parts`](Self::equal_parts).
    type Iter;

    /// Splits the collection into `num_parts` approximately equal parts.
    ///
    /// `num_parts` must be positive: a split into zero parts is rejected
    /// before any cursor is built.
    fn equal_parts(self, num_parts: usize) -> Self::Iter
        requires
            0 < num_parts,
    ;
}

/// Iterator that yields approximately equal parts of a slice, each part a
/// sub-slice sharing storage with the source.
///
/// [`next`](Self::next) yields the parts of [`parts`](Self::parts) in order
/// and then `None`, indefinitely, once the remainder is exhausted.
pub struct EqualPartsIter<'a, T> {
    data: &'a [T],
    part_size: usize,
    full_parts_left: usize,
    short_parts_left: Ghost<int>,
}

impl<'a, T> EqualPartsIter<'a, T> {
    /// The elements not yet carved into parts, in order.
    pub closed spec fn remaining(self) -> Seq<T> {
        self.data@
    }

    /// The parts this iterator will still emit, in emission order.
    pub closed spec fn parts(self) -> Seq<Seq<T>> {
        plan::parts_from(self.remaining(), self.part_size as int, self.full_parts_left as int)
    }

    #[verifier::type_invariant]
    spec fn wf(self) -> bool {
        self.data@.len() == 0 || plan::cursor_ok(
            self.data@.len() as int,
            self.part_size as int,
            self.full_parts_left as int,
            self.short_parts_left@,
        )
    }

    /// Builds the iterator over `data`, split into `num_parts` parts.
    pub fn new(data: &'a [T], num_parts: usize) -> (it: Self)
        requires
            0 < num_parts,
        ensures
            it.remaining() == data@,
            it.parts() == plan::plan_parts(data@, num_parts as int),
    {
        let n = data.len();
        proof {
            plan::lemma_plan_cursor(n as int, num_parts as int);
            plan::lemma_plan_formulas(n as int, num_parts as int);
            if n > 0 {
                vstd::arithmetic::div_mod::lemma_div_nonincreasing((n - 1) as int, num_parts as int);
            }
        }
        let part_size: usize = if n == 0 {
            0
        } else {
            (n - 1) / num_parts + 1
        };
        let full_parts_left: usize = if n % num_parts == 0 {
            num_parts
        } else {
            n % num_parts
        };
        EqualPartsIter {
            data,
            part_size,
            full_parts_left,
            short_parts_left: Ghost(num_parts as int - full_parts_left as int),
        }
    }

    /// Carves the next part off the front of the remainder, or signals
    /// exhaustion with `None` once the remainder is empty.
    pub fn next(&mut self) -> (r: Option<&'a [T]>)
        ensures
            old(self).remaining().len() == 0 ==> r is None && final(self).remaining() == old(
                self,
            ).remaining() && final(self).parts() == old(self).parts(),
            old(self).remaining().len() > 0 ==> r is Some && old(self).parts().len() > 0 && r->0@
                == old(self).parts()[0] && final(self).remaining() == old(self).remaining().skip(
                old(self).parts()[0].len() as int,
            ) && final(self).parts() == old(self).parts().skip(1),
    {
        proof {
            use_type_invariant(&*self);
        }
        if self.data.len() == 0 {
            None
        } else {
            let ghost rem = self.data@;
            proof {
                plan::lemma_cursor_advance(
                    rem.len() as int,
                    self.part_size as int,
                    self.full_parts_left as int,
                    self.short_parts_left@,
                );
            }
            let c: usize = if self.full_parts_left > 0 {
                self.part_size
            } else {
                self.part_size - 1
            };
            let f2: usize = if self.full_parts_left > 0 {
                self.full_parts_left - 1
            } else {
                0
            };
            let ghost m2: int = if self.full_parts_left > 0 {
                self.short_parts_left@
            } else {
                self.short_parts_left@ - 1
            };
            let chunk: &'a [T] = slice_subrange(self.data, 0, c);
            let rest: &'a [T] = slice_subrange(self.data, c, self.data.len());
            *self = EqualPartsIter {
                data: rest,
                part_size: self.part_size,
                full_parts_left: f2,
                short_parts_left: Ghost(m2),
            };
            proof {
                assert(chunk@ == rem.take(c as int));
                assert(rest@ == rem.skip(c as int));
                assert((seq![rem.take(c as int)] + self.parts()).skip(1) =~= self.parts());
            }
            Some(chunk)
        }
    }
}

impl<'a, T> EqualParts for &'a [T] {
    type Item = &'a [T];

    type Iter = EqualPartsIter<'a, T>;

    fn equal_parts(self, num_parts: usize) -> (it: EqualPartsIter<'a, T>)
        ensures
            it.remaining() == self@,
            it.parts() == plan::plan_parts(self@, num_parts as int),
    {
        EqualPartsIter::new(self, num_parts)
    }
}

impl<'a, T> EqualParts for &'a Vec<T> {
    type Item = &'a [T];

    type Iter = EqualPartsIter<'a, T>;

    fn equal_parts(self, num_parts: usize) -> (it: EqualPartsIter<'a, T>)
        ensures
            it.remaining() == self@,
            it.parts() == plan::plan_parts(self@, num_parts as int),
    {
        EqualPartsIter::new(self.as_slice(), num_parts)
    }
}

} // verus!
