//! The consuming partition iterator over `Vec`.

use vstd::prelude::*;
use crate::into::into_equal_parts::IntoEqualParts;
use crate::plan;

verus! {

/// Iterator that yields approximately equal owned parts of a `Vec`.
///
/// [`next`](Self::next) yields the parts of [`parts`](Self::parts) in order
/// and then `None`, indefinitely, once the remainder is exhausted. Each part
/// is a freshly allocated `Vec` whose storage is disjoint from every other
/// part and from the iterator's remainder.
///
/// The remainder is stored back to front, so that each element moves out
/// with a constant-time `pop`: the total work over all parts stays linear in
/// the source length instead of degrading to repeated front-removal.
pub struct IntoEqualPartsIter<T> {
    data: Vec<T>,
    part_size: usize,
    full_parts_left: usize,
    short_parts_left: Ghost<int>,
}

/// Appending an element and reversing is prepending to the reversal.
proof fn lemma_reverse_push<T>(s: Seq<T>, x: T)
    ensures
        s.push(x).reverse() == seq![x] + s.reverse(),
{
    let lhs = s.push(x).reverse();
    let rhs = seq![x] + s.reverse();
    let l = s.len() as int;
    assert(lhs.len() == l + 1);
    assert forall|i: int| 0 <= i < l + 1 implies lhs[i] == rhs[i] by {
        assert(lhs[i] == s.push(x)[l - i]);
        if i == 0 {
            assert(rhs[0] == x);
        } else {
            assert(rhs[i] == s.reverse()[i - 1]);
            assert(s.reverse()[i - 1] == s[l - i]);
        }
    }
    assert(lhs =~= rhs);
}

/// Dropping the last element and reversing is dropping the reversal's first.
proof fn lemma_reverse_drop_last<T>(s: Seq<T>)
    requires
        0 < s.len(),
    ensures
        s.last() == s.reverse()[0],
        s.drop_last().reverse() == s.reverse().skip(1),
{
    let l = s.len() as int;
    assert(s.reverse()[0] == s[l - 1]);
    let lhs = s.drop_last().reverse();
    let rhs = s.reverse().skip(1);
    assert(lhs.len() == l - 1);
    assert(rhs.len() == l - 1);
    assert forall|i: int| 0 <= i < l - 1 implies lhs[i] == rhs[i] by {
        assert(lhs[i] == s.drop_last()[l - 2 - i]);
        assert(s.drop_last()[l - 2 - i] == s[l - 2 - i]);
        assert(rhs[i] == s.reverse()[i + 1]);
        assert(s.reverse()[i + 1] == s[l - 2 - i]);
    }
    assert(lhs =~= rhs);
}

impl<T> IntoEqualPartsIter<T> {
    /// The elements not yet carved into parts, in order.
    pub closed spec fn remaining(self) -> Seq<T> {
        self.data@.reverse()
    }

    /// The parts this iterator will still emit, in emission order.
    pub closed spec fn parts(self) -> Seq<Seq<T>> {
        plan::parts_from(self.remaining(), self.part_size as int, self.full_parts_left as int)
    }

    #[verifier::type_invariant]
    spec fn wf(self) -> bool {
        self.data@.len() == 0 || plan::cursor_ok(
            self.data@.len() as int,
            self.part_size as int,
            self.full_parts_left as int,
            self.short_parts_left@,
        )
    }

    /// Takes ownership of `data` and builds the iterator over it, split into
    /// `num_parts` parts.
    pub fn new(data: Vec<T>, num_parts: usize) -> (it: Self)
        requires
            0 < num_parts,
        ensures
            it.remaining() == data@,
            it.parts() == plan::plan_parts(data@, num_parts as int),
    {
        let ghost orig = data@;
        let n = data.len();
        proof {
            plan::lemma_plan_cursor(n as int, num_parts as int);
            plan::lemma_plan_formulas(n as int, num_parts as int);
            if n > 0 {
                vstd::arithmetic::div_mod::lemma_div_nonincreasing((n - 1) as int, num_parts as int);
            }
        }
        let part_size: usize = if n == 0 {
            0
        } else {
            (n - 1) / num_parts + 1
        };
        let full_parts_left: usize = if n % num_parts == 0 {
            num_parts
        } else {
            n % num_parts
        };
        let mut src = data;
        let mut rev: Vec<T> = Vec::new();
        proof {
            assert(src@ + rev@.reverse() =~= orig);
        }
        while src.len() > 0
            invariant
                src@ + rev@.reverse() == orig,
                src@.len() + rev@.len() == orig.len(),
            decreases src.len(),
        {
            let ghost sv = src@;
            let ghost rv = rev@;
            let x = src.pop().unwrap();
            rev.push(x);
            proof {
                lemma_reverse_push(rv, x);
                assert(src@ =~= sv.drop_last());
                assert(src@ + rev@.reverse() =~= orig);
            }
        }
        proof {
            assert(rev@.reverse() =~= orig);
            assert(rev@.reverse().len() == rev@.len());
        }
        IntoEqualPartsIter {
            data: rev,
            part_size,
            full_parts_left,
            short_parts_left: Ghost(num_parts as int - full_parts_left as int),
        }
    }

    /// Moves the next part out of the front of the remainder into a freshly
    /// owned `Vec`, or signals exhaustion with `None` once the remainder is
    /// empty.
    pub fn next(&mut self) -> (r: Option<Vec<T>>)
        ensures
            old(self).remaining().len() == 0 ==> r is None && final(self).remaining() == old(
                self,
            ).remaining() && final(self).parts() == old(self).parts(),
            old(self).remaining().len() > 0 ==> r is Some && old(self).parts().len() > 0 && r->0@
                == old(self).parts()[0] && final(self).remaining() == old(self).remaining().skip(
                old(self).parts()[0].len() as int,
            ) && final(self).parts() == old(self).parts().skip(1),
    {
        proof {
            use_type_invariant(&*self);
        }
        if self.data.len() == 0 {
            return None;
        }
        let ghost rem = self.data@.reverse();
        proof {
            assert(rem.len() == self.data@.len());
            plan::lemma_cursor_advance(
                rem.len() as int,
                self.part_size as int,
                self.full_parts_left as int,
                self.short_parts_left@,
            );
        }
        let c: usize = if self.full_parts_left > 0 {
            self.part_size
        } else {
            self.part_size - 1
        };
        let f2: usize = if self.full_parts_left > 0 {
            self.full_parts_left - 1
        } else {
            0
        };
        let ghost m2: int = if self.full_parts_left > 0 {
            self.short_parts_left@
        } else {
            self.short_parts_left@ - 1
        };
        let mut rev: Vec<T> = Vec::new();
        core::mem::swap(&mut self.data, &mut rev);
        let mut chunk: Vec<T> = Vec::new();
        let mut i: usize = 0;
        while i < c
            invariant
                0 <= i <= c,
                c as int <= rem.len(),
                chunk@ == rem.take(i as int),
                rev@.reverse() == rem.skip(i as int),
                rev@.len() == rem.len() - i,
            decreases c - i,
        {
            let ghost rv = rev@;
            let x = rev.pop().unwrap();
            chunk.push(x);
            proof {
                lemma_reverse_drop_last(rv);
                assert(rev@ =~= rv.drop_last());
                assert(x == rem.skip(i as int)[0]);
                assert(x == rem[i as int]);
                assert(chunk@ =~= rem.take(i as int + 1));
                assert(rev@.reverse() =~= rem.skip(i as int + 1));
            }
            i = i + 1;
        }
        self.full_parts_left = f2;
        self.short_parts_left = Ghost(m2);
        core::mem::swap(&mut self.data, &mut rev);
        proof {
            assert(self.remaining() == rem.skip(c as int));
            assert((seq![rem.take(c as int)] + self.parts()).skip(1) =~= self.parts());
        }
        Some(chunk)
    }
}

impl<T> IntoEqualParts for Vec<T> {
    type Item = Vec<T>;

    type IntoIter = IntoEqualPartsIter<T>;

    fn into_equal_parts(self, num_parts: usize) -> (it: IntoEqualPartsIter<T>)
        ensures
            it.remaining() == self@,
            it.parts() == plan::plan_parts(self@, num_parts as int),
    {
        IntoEqualPartsIter::new(self, num_parts)
    }
}

} // verus!
