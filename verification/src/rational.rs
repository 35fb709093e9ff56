//! An exact rational number kept in canonical form: the stored numerator
//! and denominator are always coprime, the denominator is always positive,
//! and any sign lives solely in the numerator. Canonical form makes
//! structural equality coincide with mathematical equality, which is proved
//! here as `lemma_canonical_form_unique`.

use vstd::prelude::*;

verus! {

use core::cmp::Ordering;
use crate::decimal::int_rep;
use crate::decimal::push_int;
use crate::gcd::gcd;
use crate::gcd::lemma_divides_exact;
use crate::gcd::lemma_gcd_div_coprime;
use crate::gcd::lemma_gcd_divides;
use crate::gcd::lemma_gcd_pos;
use crate::gcd::lemma_gcd_scale;
use crate::gcd::lemma_gcd_with_one;
use crate::gcd::lemma_gcd_zero_left;
use crate::gcd::spec_gcd;
use vstd::math::abs;

/// A rational number representation.
#[derive(Copy, Clone, Debug, Eq, PartialEq, Structural)]
pub struct Rational {
    n: i32,
    d: i32,
}

impl Rational {
    /// The stored numerator, as a mathematical integer.
    pub closed spec fn num(self) -> int {
        self.n as int
    }

    /// The stored denominator, as a mathematical integer.
    pub closed spec fn den(self) -> int {
        self.d as int
    }

    /// Canonical form: positive denominator, numerator and denominator
    /// coprime. The sign of the value lives solely in the numerator.
    pub open spec fn wf(self) -> bool {
        &&& self.den() > 0
        &&& spec_gcd(abs(self.num()), self.den() as nat) == 1
    }

    /// `self` is strictly below `other` as a mathematical rational, by
    /// cross-multiplication; faithful whenever both denominators are
    /// positive, which canonical form guarantees.
    pub open spec fn value_lt(self, other: Rational) -> bool {
        self.num() * other.den() < other.num() * self.den()
    }

    /// Builds the canonical rational with the value `num / den`.
    /// A zero denominator is a programmer error and is ruled out up front.
    pub fn new(num: i32, den: i32) -> (r: Rational)
        requires
            den != 0,
            num > i32::MIN,
            den > i32::MIN,
        ensures
            r.wf(),
            r.num() * (den as int) == (num as int) * r.den(),
    {
        let (n, d) = Rational::reduce_values(num, den);
        Rational { n, d }
    }

    /// Divides out the gcd and folds the sign of the value into the
    /// numerator, leaving the denominator positive.
    fn reduce_values(a: i32, b: i32) -> (r: (i32, i32))
        requires
            b != 0,
            a > i32::MIN,
            b > i32::MIN,
        ensures
            r.1 > 0,
            spec_gcd(abs(r.0 as int), r.1 as nat) == 1,
            (r.0 as int) * (b as int) == (a as int) * (r.1 as int),
    {
        let na: i32 = if a < 0 {
            -a
        } else {
            a
        };
        let nb: i32 = if b < 0 {
            -b
        } else {
            b
        };
        let g: i32 = gcd(na, nb);
        proof {
            lemma_gcd_pos(na as nat, nb as nat);
            lemma_gcd_divides(na as nat, nb as nat);
            lemma_divides_exact(g as int, na as int);
            lemma_divides_exact(g as int, nb as int);
        }
        let n0: i32 = na / g;
        let d0: i32 = nb / g;
        proof {
            assert(d0 >= 1) by (nonlinear_arith)
                requires
                    nb as int == (g as int) * (d0 as int),
                    nb >= 1,
                    g >= 1,
            ;
            lemma_gcd_div_coprime(na as nat, nb as nat, n0 as nat, d0 as nat);
        }
        let n1: i32 = if (a < 0) != (b < 0) {
            -n0
        } else {
            n0
        };
        proof {
            assert((n1 as int) * (b as int) == (a as int) * (d0 as int)) by (nonlinear_arith)
                requires
                    na as int == (g as int) * (n0 as int),
                    nb as int == (g as int) * (d0 as int),
                    na as int == (if (a as int) < 0 {
                        -(a as int)
                    } else {
                        a as int
                    }),
                    nb as int == (if (b as int) < 0 {
                        -(b as int)
                    } else {
                        b as int
                    }),
                    n1 as int == (if ((a as int) < 0) != ((b as int) < 0) {
                        -(n0 as int)
                    } else {
                        n0 as int
                    }),
            ;
        }
        (n1, d0)
    }

    /// The canonical numerator, verbatim.
    pub fn numerator(&self) -> (r: i32)
        ensures
            r as int == self.num(),
    {
        self.n
    }

    /// The canonical denominator, verbatim.
    pub fn denominator(&self) -> (r: i32)
        ensures
            r as int == self.den(),
    {
        self.d
    }

    /// A new rational number with the value of a whole number.
    pub fn from(num: i32) -> (r: Rational)
        ensures
            r.wf(),
            r.num() == num as int,
            r.den() == 1,
    {
        proof {
            lemma_gcd_with_one(abs(num as int));
        }
        Rational { n: num, d: 1 }
    }

    /// Whether the value is at least zero; zero counts as positive.
    pub fn is_positive(&self) -> (r: bool)
        requires
            self.wf(),
        ensures
            r == (self.num() >= 0),
    {
        !Rational::is_negative(self)
    }

    /// Whether the value is strictly below zero.
    pub fn is_negative(&self) -> (r: bool)
        requires
            self.wf(),
        ensures
            r == (self.num() < 0),
    {
        self.n < 0 || self.d < 0
    }
}

/// Canonical pairs with equal cross-products are identical: the heart of
/// "one value, one representation".
pub proof fn lemma_canonical_pair_unique(n1: int, d1: int, n2: int, d2: int)
    requires
        d1 > 0,
        d2 > 0,
        spec_gcd(abs(n1), d1 as nat) == 1,
        spec_gcd(abs(n2), d2 as nat) == 1,
        n1 * d2 == n2 * d1,
    ensures
        n1 == n2,
        d1 == d2,
{
    let m1 = abs(n1);
    let m2 = abs(n2);
    assert((d2 as nat) * m1 == (d1 as nat) * m2 && (d2 as nat) * (d1 as nat) == (d1 as nat) * (
    d2 as nat)) by (nonlinear_arith)
        requires
            n1 * d2 == n2 * d1,
            d1 > 0,
            d2 > 0,
            m1 == (if n1 < 0 {
                -n1
            } else {
                n1
            }),
            m2 == (if n2 < 0 {
                -n2
            } else {
                n2
            }),
    ;
    lemma_gcd_scale(d2 as nat, m1, d1 as nat);
    lemma_gcd_scale(d1 as nat, m2, d2 as nat);
    assert(d1 == d2);
    assert(n1 == n2) by (nonlinear_arith)
        requires
            n1 * d2 == n2 * d1,
            d1 == d2,
            d1 > 0,
    ;
}

/// Canonical form is unique: two well-formed rationals that stand for the
/// same mathematical value are structurally equal, so `==` on the stored
/// fields coincides with equality of values.
pub proof fn lemma_canonical_form_unique(a: Rational, b: Rational)
    requires
        a.wf(),
        b.wf(),
        a.num() * b.den() == b.num() * a.den(),
    ensures
        a == b,
{
    lemma_canonical_pair_unique(a.num(), a.den(), b.num(), b.den());
}

/// The value order is transitive.
pub proof fn lemma_lt_transitive(a: Rational, b: Rational, c: Rational)
    requires
        a.wf(),
        b.wf(),
        c.wf(),
        a.value_lt(b),
        b.value_lt(c),
    ensures
        a.value_lt(c),
{
    assert(a.num() * c.den() < c.num() * a.den()) by (nonlinear_arith)
        requires
            a.num() * b.den() < b.num() * a.den(),
            b.num() * c.den() < c.num() * b.den(),
            a.den() > 0,
            b.den() > 0,
            c.den() > 0,
    ;
}

/// The value order is asymmetric: no two values lie strictly below each
/// other at once.
pub proof fn lemma_lt_asymmetric(a: Rational, b: Rational)
    requires
        a.value_lt(b),
    ensures
        !b.value_lt(a),
{
}

/// The value order is total: two well-formed rationals are comparable, and
/// incomparability in both directions collapses to structural equality.
pub proof fn lemma_lt_total(a: Rational, b: Rational)
    requires
        a.wf(),
        b.wf(),
    ensures
        a.value_lt(b) || b.value_lt(a) || a == b,
{
    if !a.value_lt(b) && !b.value_lt(a) {
        lemma_canonical_form_unique(a, b);
    }
}

/// Both cross-products of two rationals fit comfortably in 64 bits.
proof fn lemma_cross_product_fits(x: int, y: int)
    by (nonlinear_arith)
    requires
        -0x8000_0000 <= x <= 0x7fff_ffff,
        -0x8000_0000 <= y <= 0x7fff_ffff,
    ensures
        -0x4000_0000_0000_0000 <= x * y <= 0x4000_0000_0000_0000,
{
}

impl PartialOrd for Rational {
    /// Total order by true rational value through cross-multiplication,
    /// widened to 64 bits so that no product can overflow.
    fn partial_cmp(&self, other: &Self) -> (r: Option<Ordering>) {
        proof {
            lemma_cross_product_fits(self.num(), other.den());
            lemma_cross_product_fits(other.num(), self.den());
        }
        let lhs: i64 = (self.n as i64) * (other.d as i64);
        let rhs: i64 = (other.n as i64) * (self.d as i64);
        if lhs < rhs {
            Some(Ordering::Less)
        } else if lhs == rhs {
            Some(Ordering::Equal)
        } else {
            Some(Ordering::Greater)
        }
    }
}

impl vstd::std_specs::cmp::PartialOrdSpecImpl for Rational {
    open spec fn obeys_partial_cmp_spec() -> bool {
        true
    }

    open spec fn partial_cmp_spec(&self, other: &Rational) -> Option<Ordering> {
        if self.value_lt(*other) {
            Some(Ordering::Less)
        } else if other.value_lt(*self) {
            Some(Ordering::Greater)
        } else {
            Some(Ordering::Equal)
        }
    }
}

impl Rational {
    /// The additive inverse, in canonical form: the numerator flips sign,
    /// the denominator stays.
    pub fn neg(self) -> (r: Rational)
        requires
            self.wf(),
            self.num() > i32::MIN,
        ensures
            r.wf(),
            r.num() == -self.num(),
            r.den() == self.den(),
    {
        let num: i32 = self.n;
        let den: i32 = self.d;
        let r = if self.is_positive() {
            Rational::new(-num, den)
        } else {
            Rational::new(
                if num < 0 {
                    -num
                } else {
                    num
                },
                if den < 0 {
                    -den
                } else {
                    den
                },
            )
        };
        proof {
            lemma_canonical_pair_unique(r.num(), r.den(), -self.num(), self.den());
        }
        r
    }

    /// The canonical sum `self + other`, by the textbook cross formula.
    pub fn add(self, other: Rational) -> (r: Rational)
        requires
            self.wf(),
            other.wf(),
            i32::MIN <= self.num() * other.den() <= i32::MAX,
            i32::MIN <= self.den() * other.num() <= i32::MAX,
            i32::MIN < self.num() * other.den() + self.den() * other.num() <= i32::MAX,
            self.den() * other.den() <= i32::MAX,
        ensures
            r.wf(),
            r.num() * (self.den() * other.den()) == (self.num() * other.den() + self.den()
                * other.num()) * r.den(),
    {
        proof {
            lemma_den_product_pos(self, other);
        }
        let n: i32 = self.n * other.d + self.d * other.n;
        let d: i32 = self.d * other.d;
        Rational::new(n, d)
    }

    /// The canonical difference `self - other`.
    pub fn sub(self, other: Rational) -> (r: Rational)
        requires
            self.wf(),
            other.wf(),
            i32::MIN <= self.num() * other.den() <= i32::MAX,
            i32::MIN <= self.den() * other.num() <= i32::MAX,
            i32::MIN < self.num() * other.den() - self.den() * other.num() <= i32::MAX,
            self.den() * other.den() <= i32::MAX,
        ensures
            r.wf(),
            r.num() * (self.den() * other.den()) == (self.num() * other.den() - self.den()
                * other.num()) * r.den(),
    {
        proof {
            lemma_den_product_pos(self, other);
        }
        let n: i32 = self.n * other.d - self.d * other.n;
        let d: i32 = self.d * other.d;
        Rational::new(n, d)
    }

    /// The canonical product `self * other`.
    pub fn mul(self, other: Rational) -> (r: Rational)
        requires
            self.wf(),
            other.wf(),
            i32::MIN < self.num() * other.num() <= i32::MAX,
            self.den() * other.den() <= i32::MAX,
        ensures
            r.wf(),
            r.num() * (self.den() * other.den()) == (self.num() * other.num()) * r.den(),
    {
        proof {
            lemma_den_product_pos(self, other);
        }
        let n: i32 = self.n * other.n;
        let d: i32 = self.d * other.d;
        Rational::new(n, d)
    }

    /// The canonical quotient `self / other`. Dividing by the rational
    /// zero is a programmer error and is ruled out up front.
    pub fn div(self, other: Rational) -> (r: Rational)
        requires
            self.wf(),
            other.wf(),
            other.num() != 0,
            i32::MIN < self.num() * other.den() <= i32::MAX,
            i32::MIN < other.num() * self.den() <= i32::MAX,
        ensures
            r.wf(),
            r.num() * (other.num() * self.den()) == (self.num() * other.den()) * r.den(),
    {
        proof {
            assert(other.num() * self.den() != 0) by (nonlinear_arith)
                requires
                    other.num() != 0,
                    self.den() > 0,
            ;
        }
        let n: i32 = self.n * other.d;
        let d: i32 = other.n * self.d;
        Rational::new(n, d)
    }

    /// Replaces `self` with the canonical sum `self + other`.
    pub fn add_assign(&mut self, other: Rational)
        requires
            old(self).wf(),
            other.wf(),
            i32::MIN <= old(self).num() * other.den() <= i32::MAX,
            i32::MIN <= old(self).den() * other.num() <= i32::MAX,
            i32::MIN < old(self).num() * other.den() + old(self).den() * other.num() <= i32::MAX,
            old(self).den() * other.den() <= i32::MAX,
        ensures
            final (self).wf(),
            final (self).num() * (old(self).den() * other.den()) == (old(self).num() * other.den()
                + old(self).den() * other.num()) * final (self).den(),
    {
        *self = self.add(other);
    }

    /// Replaces `self` with the canonical difference `self - other`.
    pub fn sub_assign(&mut self, other: Rational)
        requires
            old(self).wf(),
            other.wf(),
            i32::MIN <= old(self).num() * other.den() <= i32::MAX,
            i32::MIN <= old(self).den() * other.num() <= i32::MAX,
            i32::MIN < old(self).num() * other.den() - old(self).den() * other.num() <= i32::MAX,
            old(self).den() * other.den() <= i32::MAX,
        ensures
            final (self).wf(),
            final (self).num() * (old(self).den() * other.den()) == (old(self).num() * other.den()
                - old(self).den() * other.num()) * final (self).den(),
    {
        *self = self.sub(other);
    }

    /// Canonical display form: just the numerator when the denominator is
    /// 1, else `numerator/denominator`; a negative value carries a single
    /// leading minus sign on the numerator.
    pub open spec fn display_spec(self) -> Seq<char> {
        if self.den() == 1 {
            int_rep(self.num())
        } else {
            int_rep(self.num()) + seq!['/'] + int_rep(self.den())
        }
    }

    /// Renders the canonical display form.
    pub fn to_string(&self) -> (r: String)
        ensures
            r@ == self.display_spec(),
    {
        let mut s = String::new();
        push_int(&mut s, self.n);
        if self.d != 1 {
            proof {
                reveal_strlit("/");
            }
            s.append("/");
            push_int(&mut s, self.d);
            proof {
                assert(s@ =~= self.display_spec());
            }
        }
        s
    }
}

/// The product of two canonical denominators is positive.
proof fn lemma_den_product_pos(a: Rational, b: Rational)
    requires
        a.wf(),
        b.wf(),
    ensures
        a.den() * b.den() > 0,
{
    assert(a.den() * b.den() > 0) by (nonlinear_arith)
        requires
            a.den() > 0,
            b.den() > 0,
    ;
}

/// Adding the integer zero changes nothing: any canonical `r` whose value
/// is that of `a + 0/1` is `a` itself.
pub proof fn lemma_add_zero_identity(a: Rational, z: Rational, r: Rational)
    requires
        a.wf(),
        z.wf(),
        r.wf(),
        z.num() == 0,
        z.den() == 1,
        r.num() * (a.den() * z.den()) == (a.num() * z.den() + a.den() * z.num()) * r.den(),
    ensures
        r == a,
{
    assert(r.num() * a.den() == a.num() * r.den()) by (nonlinear_arith)
        requires
            z.num() == 0,
            z.den() == 1,
            r.num() * (a.den() * z.den()) == (a.num() * z.den() + a.den() * z.num()) * r.den(),
    ;
    lemma_canonical_form_unique(r, a);
}

/// A value plus its additive inverse is the rational zero: any canonical
/// `r` whose value is that of `a + (-a)` is `0/1`.
pub proof fn lemma_add_negate_inverse(a: Rational, n: Rational, r: Rational)
    requires
        a.wf(),
        n.wf(),
        r.wf(),
        n.num() == -a.num(),
        n.den() == a.den(),
        r.num() * (a.den() * n.den()) == (a.num() * n.den() + a.den() * n.num()) * r.den(),
    ensures
        r.num() == 0,
        r.den() == 1,
{
    assert(r.num() * (a.den() * n.den()) == 0) by (nonlinear_arith)
        requires
            n.num() == -a.num(),
            n.den() == a.den(),
            r.num() * (a.den() * n.den()) == (a.num() * n.den() + a.den() * n.num()) * r.den(),
    ;
    assert(r.num() == 0) by (nonlinear_arith)
        requires
            r.num() * (a.den() * n.den()) == 0,
            a.den() > 0,
            n.den() > 0,
    ;
    lemma_gcd_zero_left(r.den() as nat);
}

} // verus!
