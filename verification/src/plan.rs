//! The sizing rule shared by both partition iterators: how long each part is,
//! how many parts get the longer size, and what a partition cursor looks like
//! while parts are being carved off.

use vstd::prelude::*;
use vstd::arithmetic::div_mod::lemma_fundamental_div_mod;
use vstd::arithmetic::div_mod::lemma_fundamental_div_mod_converse;
use vstd::arithmetic::div_mod::lemma_mod_division_less_than_divisor;

verus! {

/// Size of a full part: the ceiling of `n / k`.
pub open spec fn full_size(n: int, k: int) -> int
    recommends
        1 <= k,
{
    (n + k - 1) / k
}

/// How many parts get the full size; the remaining parts are one element
/// shorter. The deficit `full_size * k - n` is absorbed by making that many
/// parts one element smaller.
pub open spec fn full_count(n: int, k: int) -> int
    recommends
        1 <= k,
{
    k - (full_size(n, k) * k - n)
}

/// Length of the part emitted next, given how many full parts are still owed.
pub open spec fn next_part_len(size: int, full_left: int) -> int {
    if full_left > 0 {
        size
    } else {
        size - 1
    }
}

/// The parts still to be emitted from a cursor over the remaining elements
/// `s`, with full parts of length `size`, `full_left` of them still owed.
/// A coherent cursor never reaches the arm that returns the remainder whole;
/// it only keeps this function total.
pub open spec fn parts_from<T>(s: Seq<T>, size: int, full_left: int) -> Seq<Seq<T>>
    decreases s.len(),
{
    if s.len() == 0 {
        Seq::empty()
    } else {
        let c = next_part_len(size, full_left);
        if 1 <= c <= s.len() {
            seq![s.take(c)] + parts_from(
                s.skip(c),
                size,
                if full_left > 0 { full_left - 1 } else { 0 },
            )
        } else {
            seq![s]
        }
    }
}

/// The full partition of a sequence into `k` near-equal parts, longer parts
/// first.
pub open spec fn plan_parts<T>(s: Seq<T>, k: int) -> Seq<Seq<T>>
    recommends
        1 <= k,
{
    parts_from(s, full_size(s.len() as int, k), full_count(s.len() as int, k))
}

/// Sum of the lengths of a sequence of parts.
pub open spec fn total_len<T>(ps: Seq<Seq<T>>) -> int
    decreases ps.len(),
{
    if ps.len() == 0 {
        0
    } else {
        ps[0].len() + total_len(ps.skip(1))
    }
}

/// A partition cursor is coherent when the remaining length `r` is filled
/// exactly by `full_left` parts of the full size and `short_left` parts one
/// element shorter.
pub open spec fn cursor_ok(r: int, size: int, full_left: int, short_left: int) -> bool {
    &&& 0 <= full_left
    &&& 0 <= short_left
    &&& r == full_left * size + short_left * (size - 1)
}

/// From a coherent, non-exhausted cursor the next part has a positive length
/// that fits in the remainder, and carving it off leaves the cursor coherent.
pub proof fn lemma_cursor_advance(r: int, size: int, full_left: int, short_left: int)
    requires
        cursor_ok(r, size, full_left, short_left),
        0 < r,
    ensures
        1 <= size,
        full_left > 0 ==> size <= r && cursor_ok(r - size, size, full_left - 1, short_left),
        full_left == 0 ==> 2 <= size && size - 1 <= r && 1 <= short_left && cursor_ok(
            r - (size - 1),
            size,
            0,
            short_left - 1,
        ),
{
    assert(1 <= size) by (nonlinear_arith)
        requires
            0 <= full_left,
            0 <= short_left,
            r == full_left * size + short_left * (size - 1),
            0 < r,
    ;
    if full_left > 0 {
        assert(size <= r && r - size == (full_left - 1) * size + short_left * (size - 1))
            by (nonlinear_arith)
            requires
                1 <= full_left,
                0 <= short_left,
                1 <= size,
                r == full_left * size + short_left * (size - 1),
        ;
    } else {
        assert(2 <= size && 1 <= short_left && size - 1 <= r && r - (size - 1) == 0 * size + (
        short_left - 1) * (size - 1)) by (nonlinear_arith)
            requires
                full_left == 0,
                0 <= short_left,
                1 <= size,
                r == full_left * size + short_left * (size - 1),
                0 < r,
        ;
    }
}

/// An exhausted coherent cursor owes no further full parts, and no short
/// parts either unless short parts are empty.
pub proof fn lemma_cursor_empty(size: int, full_left: int, short_left: int)
    requires
        cursor_ok(0, size, full_left, short_left),
        1 <= size,
    ensures
        full_left == 0,
        2 <= size ==> short_left == 0,
{
    assert(full_left == 0 && (2 <= size ==> short_left == 0)) by (nonlinear_arith)
        requires
            0 <= full_left,
            0 <= short_left,
            0 == full_left * size + short_left * (size - 1),
            1 <= size,
    ;
}

/// Everything the sizing rule promises of a coherent cursor: how many parts
/// still come, each part's length, the lengths' sum, and that the parts
/// concatenate back to the remaining sequence.
pub proof fn lemma_parts_from<T>(s: Seq<T>, size: int, full_left: int, short_left: int)
    requires
        cursor_ok(s.len() as int, size, full_left, short_left),
    ensures
        total_len(parts_from(s, size, full_left)) == s.len(),
        parts_from(s, size, full_left).flatten() == s,
        s.len() == 0 ==> parts_from(s, size, full_left).len() == 0,
        s.len() > 0 && size == 1 ==> parts_from(s, size, full_left).len() == full_left,
        s.len() > 0 && size != 1 ==> parts_from(s, size, full_left).len() == full_left
            + short_left,
        forall|j: int|
            0 <= j < parts_from(s, size, full_left).len() ==> (#[trigger] parts_from(
                s,
                size,
                full_left,
            )[j]).len() == if j < full_left {
                size
            } else {
                size - 1
            },
    decreases s.len(),
{
    let ps = parts_from(s, size, full_left);
    if s.len() == 0 {
        assert(ps =~= Seq::<Seq<T>>::empty());
        assert(ps.flatten() =~= s);
    } else {
        lemma_cursor_advance(s.len() as int, size, full_left, short_left);
        let c = next_part_len(size, full_left);
        let f2 = if full_left > 0 {
            full_left - 1
        } else {
            0
        };
        let m2 = if full_left > 0 {
            short_left
        } else {
            short_left - 1
        };
        let s2 = s.skip(c);
        let rest = parts_from(s2, size, f2);
        assert(ps == seq![s.take(c)] + rest);
        lemma_parts_from(s2, size, f2, m2);
        assert(ps.len() == 1 + rest.len());
        assert(ps[0] == s.take(c));
        assert(ps.skip(1) =~= rest);
        assert(total_len(ps) == c + total_len(rest));
        assert(ps.first() == s.take(c));
        assert(ps.drop_first() =~= rest);
        assert(ps.flatten() == s.take(c) + rest.flatten());
        assert(s.take(c) + s2 =~= s);
        if s2.len() == 0 {
            lemma_cursor_empty(size, f2, m2);
        }
        if size == 1 {
            // A cursor with full size 1 owes only full parts: the short size
            // would be 0, and short parts are never reachable.
            assert(ps.len() == full_left);
        } else {
            assert(ps.len() == full_left + short_left);
        }
        assert forall|j: int| 0 <= j < ps.len() implies (#[trigger] ps[j]).len() == (if j
            < full_left {
            size
        } else {
            size - 1
        }) by {
            if j == 0 {
                assert(ps[0] == s.take(c));
            } else {
                assert(ps[j] == rest[j - 1]);
            }
        }
    }
}

/// The plan's counts fill the whole sequence: `full_count` parts of the full
/// size and the rest one element shorter account for exactly `n` elements.
pub proof fn lemma_plan_cursor(n: int, k: int)
    requires
        0 <= n,
        1 <= k,
    ensures
        0 <= full_size(n, k),
        n > 0 ==> 1 <= full_size(n, k),
        0 <= full_count(n, k) <= k,
        cursor_ok(n, full_size(n, k), full_count(n, k), k - full_count(n, k)),
{
    let fs = full_size(n, k);
    let rem = (n + k - 1) % k;
    lemma_fundamental_div_mod(n + k - 1, k);
    lemma_mod_division_less_than_divisor(n + k - 1, k);
    assert(k * fs == n + k - 1 - rem);
    assert(n <= k * fs <= n + k - 1);
    assert(0 <= fs && (n > 0 ==> 1 <= fs)) by (nonlinear_arith)
        requires
            1 <= k,
            n <= k * fs,
            0 <= n,
    ;
    assert(fs * k == k * fs) by (nonlinear_arith);
    let m = fs * k - n;
    assert(n == (k - m) * fs + m * (fs - 1)) by (nonlinear_arith)
        requires
            m == fs * k - n,
    ;
}

/// The two plan numbers written as the executable code computes them: the
/// ceiling by way of `(n - 1) / k + 1`, and the full count by way of `n % k`.
pub proof fn lemma_plan_formulas(n: int, k: int)
    requires
        0 <= n,
        1 <= k,
    ensures
        n == 0 ==> full_size(n, k) == 0 && full_count(n, k) == k,
        n > 0 ==> full_size(n, k) == (n - 1) / k + 1,
        full_count(n, k) == if n % k == 0 { k } else { n % k },
{
    let q = n / k;
    let rem = n % k;
    lemma_fundamental_div_mod(n, k);
    lemma_mod_division_less_than_divisor(n, k);
    assert(n == k * q + rem);
    assert(q * k == k * q && (q + 1) * k == k * q + k && (q - 1) * k == k * q - k)
        by (nonlinear_arith);
    if rem == 0 {
        // n + k - 1 == q * k + (k - 1), so the ceiling is q itself.
        lemma_fundamental_div_mod_converse(n + k - 1, k, q, k - 1);
        assert(full_size(n, k) == q);
        if n == 0 {
            assert(q == 0) by (nonlinear_arith)
                requires
                    n == k * q + rem,
                    n == 0,
                    rem == 0,
                    1 <= k,
            ;
        }
    } else {
        // n + k - 1 == (q + 1) * k + (rem - 1), so the ceiling is q + 1.
        lemma_fundamental_div_mod_converse(n + k - 1, k, q + 1, rem - 1);
        assert(full_size(n, k) == q + 1);
    }
    if n > 0 {
        // n - 1 == q' * k + r' recovers the same ceiling.
        if rem == 0 {
            lemma_fundamental_div_mod_converse(n - 1, k, q - 1, k - 1);
        } else {
            lemma_fundamental_div_mod_converse(n - 1, k, q, rem - 1);
        }
    }
}

/// The lengths of the parts of any sequence sum to the sequence's length: no
/// element is dropped and none is counted twice.
pub proof fn lemma_parts_total_len<T>(s: Seq<T>, k: int)
    requires
        1 <= k,
    ensures
        total_len(plan_parts(s, k)) == s.len(),
{
    let n = s.len() as int;
    lemma_plan_cursor(n, k);
    lemma_parts_from(s, full_size(n, k), full_count(n, k), k - full_count(n, k));
}

/// A non-empty sequence splits into `min(N, K)` parts; an empty one into
/// none: a zero-length part is never emitted, so at most one part per element
/// can come.
pub proof fn lemma_parts_count<T>(s: Seq<T>, k: int)
    requires
        1 <= k,
    ensures
        plan_parts(s, k).len() == if s.len() == 0 {
            0
        } else if s.len() < k {
            s.len() as int
        } else {
            k
        },
{
    let n = s.len() as int;
    let fs = full_size(n, k);
    lemma_plan_cursor(n, k);
    lemma_parts_from(s, fs, full_count(n, k), k - full_count(n, k));
    lemma_plan_formulas(n, k);
    if n > 0 {
        lemma_fundamental_div_mod(n + k - 1, k);
        lemma_mod_division_less_than_divisor(n + k - 1, k);
        // n + k - 1 == k * fs + rem pins n against k on each side of fs == 1.
        if fs == 1 {
            assert(k * fs == k) by (nonlinear_arith)
                requires
                    fs == 1,
            ;
            assert(n <= k);
        } else {
            assert(2 * k <= k * fs) by (nonlinear_arith)
                requires
                    2 <= fs,
                    1 <= k,
            ;
            assert(k < n);
        }
    }
}

/// Every part's length is the full size `ceil(N / K)` or one element less,
/// and all full parts precede all short parts in emission order.
pub proof fn lemma_parts_sizes<T>(s: Seq<T>, k: int)
    requires
        1 <= k,
    ensures
        forall|j: int|
            0 <= j < plan_parts(s, k).len() ==> (#[trigger] plan_parts(s, k)[j]).len() == if j
                < full_count(s.len() as int, k) {
                full_size(s.len() as int, k)
            } else {
                full_size(s.len() as int, k) - 1
            },
{
    let n = s.len() as int;
    lemma_plan_cursor(n, k);
    lemma_parts_from(s, full_size(n, k), full_count(n, k), k - full_count(n, k));
}

/// Concatenating the parts in emission order reproduces the original
/// sequence exactly: no reordering, duplication, or omission.
pub proof fn lemma_parts_concat<T>(s: Seq<T>, k: int)
    requires
        1 <= k,
    ensures
        plan_parts(s, k).flatten() == s,
{
    let n = s.len() as int;
    lemma_plan_cursor(n, k);
    lemma_parts_from(s, full_size(n, k), full_count(n, k), k - full_count(n, k));
}

/// One part requested of a non-empty sequence yields exactly one part: the
/// whole sequence.
pub proof fn lemma_one_part<T>(s: Seq<T>)
    requires
        0 < s.len(),
    ensures
        plan_parts(s, 1) == seq![s],
{
    let n = s.len() as int;
    lemma_fundamental_div_mod_converse(n, 1, n, 0);
    assert(full_size(n, 1) == n);
    assert(n * 1 == n) by (nonlinear_arith);
    assert(full_count(n, 1) == 1);
    assert(s.take(n) =~= s);
    assert(s.skip(n) =~= Seq::<T>::empty());
    assert(parts_from(s.skip(n), n, 0) =~= Seq::<Seq<T>>::empty());
    assert(plan_parts(s, 1) =~= seq![s]);
}

} // verus!
