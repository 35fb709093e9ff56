//! Euclid's greatest-common-divisor algorithm, together with the
//! divisibility facts that canonical rational numbers rest on: the gcd
//! divides both arguments, it scales with a common factor, and dividing
//! it out leaves two coprime quotients.

use vstd::prelude::*;

verus! {

use vstd::arithmetic::div_mod::lemma_fundamental_div_mod;
use vstd::arithmetic::div_mod::lemma_fundamental_div_mod_converse;

/// Mathematical greatest common divisor, by Euclid's recursion.
pub open spec fn spec_gcd(x: nat, y: nat) -> nat
    decreases y,
{
    if y == 0 {
        x
    } else {
        spec_gcd(y, x % y)
    }
}

/// `d` divides `n` exactly.
pub open spec fn divides(d: int, n: int) -> bool {
    exists|k: int| n == #[trigger] (d * k)
}

/// A number divided by an exact positive divisor leaves no remainder:
/// `n == d * (n / d)`.
pub proof fn lemma_divides_exact(d: int, n: int)
    requires
        divides(d, n),
        d > 0,
    ensures
        n == d * (n / d),
{
    let k = choose|k: int| n == #[trigger] (d * k);
    assert(n == k * d + 0) by (nonlinear_arith)
        requires
            n == d * k,
    ;
    lemma_fundamental_div_mod_converse(n, d, k, 0);
}

/// The gcd of `x` and `y` divides both `x` and `y`.
pub proof fn lemma_gcd_divides(x: nat, y: nat)
    ensures
        divides(spec_gcd(x, y) as int, x as int),
        divides(spec_gcd(x, y) as int, y as int),
    decreases y,
{
    if y == 0 {
        assert(x as int == (x as int) * 1);
        assert(0int == (x as int) * 0);
    } else {
        lemma_gcd_divides(y, x % y);
        let g = spec_gcd(y, x % y) as int;
        let k1 = choose|k: int| y as int == #[trigger] (g * k);
        let k2 = choose|k: int| (x % y) as int == #[trigger] (g * k);
        lemma_fundamental_div_mod(x as int, y as int);
        let q = x as int / y as int;
        assert(x as int == g * (k1 * q + k2)) by (nonlinear_arith)
            requires
                y as int == g * k1,
                (x % y) as int == g * k2,
                x as int == (y as int) * q + (x % y) as int,
        ;
    }
}

/// The gcd of two numbers that are not both zero is positive.
pub proof fn lemma_gcd_pos(x: nat, y: nat)
    requires
        x > 0 || y > 0,
    ensures
        spec_gcd(x, y) >= 1,
{
    lemma_gcd_divides(x, y);
    if spec_gcd(x, y) == 0 {
        let k1 = choose|k: int| x as int == #[trigger] (0 * k);
        let k2 = choose|k: int| y as int == #[trigger] (0 * k);
        assert(x == 0 && y == 0);
    }
}

/// Scaling both arguments scales the gcd: `gcd(k*x, k*y) == k * gcd(x, y)`.
pub proof fn lemma_gcd_scale(k: nat, x: nat, y: nat)
    ensures
        spec_gcd(k * x, k * y) == k * spec_gcd(x, y),
    decreases y,
{
    if k == 0 {
        assert(k * x == 0 && k * spec_gcd(x, y) == 0) by (nonlinear_arith)
            requires
                k == 0,
        ;
    } else if y == 0 {
        assert(k * y == 0) by (nonlinear_arith)
            requires
                y == 0,
        ;
    } else {
        let q = x as int / y as int;
        let r = x % y;
        let kr = (k * r) as int;
        let ky = (k * y) as int;
        lemma_fundamental_div_mod(x as int, y as int);
        assert((k * x) as int == ky * q + kr) by (nonlinear_arith)
            requires
                x as int == (y as int) * q + r as int,
                kr == (k as int) * (r as int),
                ky == (k as int) * (y as int),
        ;
        assert(kr < ky) by (nonlinear_arith)
            requires
                0 <= r < y,
                k >= 1,
                kr == (k as int) * (r as int),
                ky == (k as int) * (y as int),
        ;
        lemma_fundamental_div_mod_converse((k * x) as int, ky, q, kr);
        assert((k * x) % (k * y) == k * r);
        lemma_gcd_scale(k, y, r);
    }
}

/// After dividing out the gcd, the two quotients are coprime.
pub proof fn lemma_gcd_div_coprime(x: nat, y: nat, a: nat, b: nat)
    requires
        x > 0 || y > 0,
        x == spec_gcd(x, y) * a,
        y == spec_gcd(x, y) * b,
    ensures
        spec_gcd(a, b) == 1,
{
    let g = spec_gcd(x, y);
    lemma_gcd_pos(x, y);
    lemma_gcd_scale(g, a, b);
    let c = spec_gcd(a, b);
    assert(c == 1) by (nonlinear_arith)
        requires
            g as int >= 1,
            g as int == (g as int) * (c as int),
    ;
}

/// One is coprime to everything: `gcd(m, 1) == 1`.
pub proof fn lemma_gcd_with_one(m: nat)
    ensures
        spec_gcd(m, 1) == 1,
{
    assert(m % 1 == 0);
    assert(spec_gcd(m, 1) == spec_gcd(1, 0));
}

/// The gcd of zero and a positive number is that number.
pub proof fn lemma_gcd_zero_left(d: nat)
    requires
        d > 0,
    ensures
        spec_gcd(0, d) == d,
{
    assert(0nat % d == 0);
    assert(spec_gcd(0, d) == spec_gcd(d, 0));
}

/// Euclid's two-thousand-year-old algorithm for finding the greatest common
/// divisor.
pub fn gcd(x: i32, y: i32) -> (r: i32)
    requires
        x >= 0,
        y >= 0,
    ensures
        r == spec_gcd(x as nat, y as nat),
{
    let ghost x0 = x as nat;
    let ghost y0 = y as nat;
    let mut x: i32 = x;
    let mut y: i32 = y;
    while y != 0
        invariant
            x >= 0,
            y >= 0,
            spec_gcd(x as nat, y as nat) == spec_gcd(x0, y0),
        decreases y,
    {
        let t: i32 = y;
        y = x % y;
        x = t;
    }
    x
}

} // verus!
