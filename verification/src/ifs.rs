//! Branching demonstrations: a predicate written with an explicit `if`,
//! and an `if` used as an expression.

use vstd::prelude::*;

verus! {

/// True exactly on the answer 42.
pub fn thruth(x: i32) -> (r: bool)
    ensures
        r == (x == 42),
{
    if x == 42 {
        true
    } else {
        false
    }
}

/// Classifies the sign of `x` as a word; zero counts as negative here.
pub fn if_as_expression(x: i32) -> (r: &'static str)
    ensures
        x > 0 ==> r@ == "positive"@,
        x <= 0 ==> r@ == "negative"@,
{
    let val = if x > 0 {
        "positive"
    } else {
        "negative"
    };
    val
}

} // verus!
