//! Three loop shapes summing the integers of a half-open range, each
//! verified against the same mathematical range sum.

use vstd::prelude::*;

verus! {

/// The sum of the integers in the half-open range `from..to`; zero when
/// the range is empty.
pub open spec fn range_sum(from: int, to: int) -> int
    decreases to - from,
{
    if from >= to {
        0
    } else {
        from + range_sum(from + 1, to)
    }
}

/// Extending the range by one on the right adds the new endpoint.
pub proof fn lemma_range_sum_step(from: int, k: int)
    requires
        from <= k,
    ensures
        range_sum(from, k + 1) == range_sum(from, k) + k,
    decreases k - from,
{
    if from < k {
        lemma_range_sum_step(from + 1, k);
        assert(range_sum(from, k + 1) == from + range_sum(from + 1, k + 1));
        assert(range_sum(from, k) == from + range_sum(from + 1, k));
    } else {
        assert(range_sum(from, k) == 0);
        assert(range_sum(k + 1, k + 1) == 0);
        assert(range_sum(from, k + 1) == from + range_sum(from + 1, k + 1));
    }
}

/// Sums numbers from 'from' to 'to' with a while
pub fn sum(from: i32, to: i32) -> (s: i32)
    requires
        forall|k: int| from <= k <= to ==> i32::MIN <= #[trigger] range_sum(from as int, k)
            <= i32::MAX,
    ensures
        s == range_sum(from as int, to as int),
{
    let mut i: i32 = from;
    let mut sum: i32 = 0;

    while i < to
        invariant
            from <= i <= to || (from > to && i == from),
            sum == range_sum(from as int, i as int),
            forall|k: int| from <= k <= to ==> i32::MIN <= #[trigger] range_sum(from as int, k)
                <= i32::MAX,
        decreases to - i,
    {
        proof {
            lemma_range_sum_step(from as int, i as int);
        }
        sum += i;
        i += 1;
    }

    sum
}

/// Sums numbers from 'from' to 'to' with a for, driven by the offset of
/// each number from the start of the range.
pub fn sum2(from: i32, to: i32) -> (s: i32)
    requires
        forall|k: int| from <= k <= to ==> i32::MIN <= #[trigger] range_sum(from as int, k)
            <= i32::MAX,
    ensures
        s == range_sum(from as int, to as int),
{
    let mut sum: i32 = 0;
    let len: u64 = if to > from {
        (to as i64 - from as i64) as u64
    } else {
        0
    };
    for k in 0..len
        invariant
            len == (if to > from {
                to - from
            } else {
                0
            }),
            sum == range_sum(from as int, from + k as int),
            forall|j: int| from <= j <= to ==> i32::MIN <= #[trigger] range_sum(from as int, j)
                <= i32::MAX,
    {
        let i: i32 = ((from as i64) + (k as i64)) as i32;
        proof {
            lemma_range_sum_step(from as int, from + k as int);
        }
        sum += i;
    }

    sum
}

/// Sums numbers from 'from' to 'to' with a bare loop; the range must not
/// be empty-backwards, or the exit test would never be reached.
pub fn sum3(from: i32, to: i32) -> (s: i32)
    requires
        from <= to,
        forall|k: int| from <= k <= to ==> i32::MIN <= #[trigger] range_sum(from as int, k)
            <= i32::MAX,
    ensures
        s == range_sum(from as int, to as int),
{
    let mut i: i32 = from;
    let mut sum: i32 = 0;

    loop
        invariant
            from <= i <= to,
            sum == range_sum(from as int, i as int),
            forall|k: int| from <= k <= to ==> i32::MIN <= #[trigger] range_sum(from as int, k)
                <= i32::MAX,
        ensures
            i == to,
            sum == range_sum(from as int, i as int),
        decreases to - i,
    {
        if i == to {
            break;
        }

        proof {
            lemma_range_sum_step(from as int, i as int);
        }
        sum += i;
        i += 1;
    }

    sum
}

} // verus!
