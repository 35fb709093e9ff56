//! A toy expression tree: integer constants, named variables bound to a
//! sub-expression, and sums, with a verified evaluator and a rendering
//! whose exact text is pinned down by a specification.

use vstd::prelude::*;

verus! {

use crate::decimal::int_rep;
use crate::decimal::push_int;
use vstd::string::StringExecFns;

#[derive(Debug)]
pub enum Exp {
    Val { n: i32 },
    Variable { name: String, exp: Box<Exp> },
    Sum { lhs: Box<Exp>, rhs: Box<Exp> },
}

impl Exp {
    /// The mathematical value of the expression: a variable evaluates to
    /// its bound expression, a sum to the sum of its sides.
    pub open spec fn eval_spec(self) -> int
        decreases self,
    {
        match self {
            Exp::Val { n } => n as int,
            Exp::Variable { name: _, exp } => exp.eval_spec(),
            Exp::Sum { lhs, rhs } => lhs.eval_spec() + rhs.eval_spec(),
        }
    }

    /// Every sum inside the tree stays within the machine-integer range,
    /// so evaluation never overflows.
    pub open spec fn in_bounds(self) -> bool
        decreases self,
    {
        match self {
            Exp::Val { .. } => true,
            Exp::Variable { name: _, exp } => exp.in_bounds(),
            Exp::Sum { lhs, rhs } => {
                &&& lhs.in_bounds()
                &&& rhs.in_bounds()
                &&& i32::MIN <= lhs.eval_spec() + rhs.eval_spec() <= i32::MAX
            },
        }
    }

    /// The rendered text: `Val(n)` for a constant, the bare name for a
    /// variable, and `(lhs) + (rhs)` for a sum.
    pub open spec fn display_spec(self) -> Seq<char>
        decreases self,
    {
        match self {
            Exp::Val { n } => seq!['V', 'a', 'l', '('] + int_rep(n as int) + seq![')'],
            Exp::Variable { name, exp: _ } => name@,
            Exp::Sum { lhs, rhs } => seq!['('] + lhs.display_spec() + seq![')', ' ', '+', ' ', '(']
                + rhs.display_spec() + seq![')'],
        }
    }

    /// Returns a new constant value
    pub fn constant(val: i32) -> (r: Exp)
        ensures
            r == (Exp::Val { n: val }),
    {
        Exp::Val { n: val }
    }

    /// Returns a new `variable` bound to an `Exp`.
    ///
    /// Moves the argument `exp`.
    pub fn variable(name: &str, exp: Exp) -> (r: Exp)
        ensures
            r matches Exp::Variable { name: n, exp: e } && n@ == name@ && *e == exp,
    {
        Exp::Variable { name: name.to_owned(), exp: Box::new(exp) }
    }

    /// Returns a new sum of the two given expressions.
    pub fn sum(lhs: Exp, rhs: Exp) -> (r: Exp)
        ensures
            r matches Exp::Sum { lhs: l, rhs: r2 } && *l == lhs && *r2 == rhs,
    {
        Exp::Sum { lhs: Box::new(lhs), rhs: Box::new(rhs) }
    }

    /// Evaluates the expression.
    pub fn eval(exp: &Exp) -> (r: i32)
        requires
            exp.in_bounds(),
        ensures
            r as int == exp.eval_spec(),
        decreases exp,
    {
        match exp {
            Exp::Val { n } => *n,
            Exp::Variable { name: _, exp: e } => Exp::eval(e),
            Exp::Sum { lhs, rhs } => Exp::eval(lhs) + Exp::eval(rhs),
        }
    }

    /// Renders the expression.
    pub fn to_string(&self) -> (r: String)
        ensures
            r@ == self.display_spec(),
        decreases self,
    {
        match self {
            Exp::Val { n } => {
                proof {
                    reveal_strlit("Val(");
                    reveal_strlit(")");
                }
                let mut s = String::new();
                s.append("Val(");
                push_int(&mut s, *n);
                s.append(")");
                proof {
                    assert(s@ =~= self.display_spec());
                }
                s
            },
            Exp::Variable { name, exp: _ } => name.clone(),
            Exp::Sum { lhs, rhs } => {
                proof {
                    reveal_strlit("(");
                    reveal_strlit(") + (");
                    reveal_strlit(")");
                }
                let mut s = String::new();
                s.append("(");
                let left = lhs.to_string();
                s.append(left.as_str());
                s.append(") + (");
                let right = rhs.to_string();
                s.append(right.as_str());
                s.append(")");
                proof {
                    assert(s@ =~= self.display_spec());
                }
                s
            },
        }
    }
}

impl Clone for Exp {
    /// A deep copy: same value, same bounds, same rendered text.
    fn clone(&self) -> (r: Self)
        ensures
            r.eval_spec() == self.eval_spec(),
            r.in_bounds() == self.in_bounds(),
            r.display_spec() == self.display_spec(),
        decreases self,
    {
        match self {
            Exp::Val { n } => Exp::Val { n: *n },
            Exp::Variable { name, exp } => Exp::Variable {
                name: name.clone(),
                exp: Box::new((**exp).clone()),
            },
            Exp::Sum { lhs, rhs } => Exp::Sum {
                lhs: Box::new((**lhs).clone()),
                rhs: Box::new((**rhs).clone()),
            },
        }
    }
}

} // verus!
