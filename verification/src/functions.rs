//! Elementary arithmetic functions: addition, checked division with a
//! typed error, a naive Fibonacci, and a generic maximum.

use vstd::prelude::*;

verus! {

use vstd::arithmetic::div_mod::lemma_div_basics_5;
use vstd::arithmetic::div_mod::lemma_div_is_ordered_by_denominator;
use vstd::arithmetic::div_mod::lemma_div_pos_is_pos;
use vstd::math::abs;
use vstd::std_specs::cmp::PartialOrdSpec;

/// The sum of two machine integers.
pub fn sum(a: i32, b: i32) -> (r: i32)
    requires
        i32::MIN <= a + b <= i32::MAX,
    ensures
        r == a + b,
{
    a + b
}

#[derive(Debug, PartialEq, Eq, Structural)]
pub enum DivError {
    DividedByZero,
}

/// The quotient Rust's `/` computes: division of the absolute values,
/// negated when the signs differ (rounding toward zero).
pub open spec fn trunc_div(a: int, b: int) -> int {
    if (a < 0) != (b < 0) {
        -((abs(a) / abs(b)) as int)
    } else {
        (abs(a) / abs(b)) as int
    }
}

/// Integer division that reports division by zero as a typed error
/// instead of failing.
pub fn div(a: i32, b: i32) -> (r: Result<i32, DivError>)
    requires
        !(a == i32::MIN && b == -1),
    ensures
        b == 0 ==> r == Err::<i32, DivError>(DivError::DividedByZero),
        b != 0 ==> (r matches Ok(q) && q as int == trunc_div(a as int, b as int)),
{
    match b {
        0 => Err(DivError::DividedByZero),
        _ => {
            let aa: i64 = if a < 0 {
                -(a as i64)
            } else {
                a as i64
            };
            let bb: i64 = if b < 0 {
                -(b as i64)
            } else {
                b as i64
            };
            let q: i64 = aa / bb;
            proof {
                lemma_div_basics_5(aa as int, bb as int);
                lemma_div_pos_is_pos(aa as int, bb as int);
                if bb >= 2 {
                    lemma_div_is_ordered_by_denominator(aa as int, 2, bb as int);
                }
            }
            if (a < 0) != (b < 0) {
                Ok((-q) as i32)
            } else {
                Ok(q as i32)
            }
        },
    }
}

/// The mathematical Fibonacci sequence, starting 1, 1, 2, 3, 5, ...
pub open spec fn spec_fib(n: int) -> int
    decreases n,
{
    if n <= 2 {
        1
    } else {
        spec_fib(n - 1) + spec_fib(n - 2)
    }
}

/// Every Fibonacci number is positive.
pub proof fn lemma_fib_pos(n: int)
    ensures
        spec_fib(n) >= 1,
    decreases n,
{
    if n > 2 {
        lemma_fib_pos(n - 1);
        lemma_fib_pos(n - 2);
    }
}

/// The Fibonacci sequence never decreases.
pub proof fn lemma_fib_monotonic(i: int, j: int)
    requires
        i <= j,
    ensures
        spec_fib(i) <= spec_fib(j),
    decreases j - i,
{
    if i < j {
        lemma_fib_monotonic(i, j - 1);
        if j > 2 {
            lemma_fib_pos(j - 2);
        }
    }
}

/// Computes the n-th fibonacci number (trivial implementation - very slow!!!)
pub fn fib(n: i32) -> (r: i32)
    requires
        n >= 1,
        spec_fib(n as int) <= i32::MAX,
    ensures
        r == spec_fib(n as int),
    decreases n,
{
    match n {
        1 => 1,
        2 => 1,
        i => {
            proof {
                lemma_fib_monotonic(i as int - 1, i as int);
                lemma_fib_pos(i as int - 1);
                lemma_fib_pos(i as int - 2);
            }
            fib(i - 1) + fib(i - 2)
        },
    }
}

/// A generic implementation for the max function
pub fn max<T: PartialOrd>(a: T, b: T) -> (r: T)
    ensures
        r == a || r == b,
        T::obeys_partial_cmp_spec() ==> r == (if a.partial_cmp_spec(&b) == Some(
            core::cmp::Ordering::Greater,
        ) {
            a
        } else {
            b
        }),
{
    if a > b {
        a
    } else {
        b
    }
}

} // verus!
