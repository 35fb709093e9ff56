//! A small collection of verified building blocks around one central type:
//! an exact rational number kept in canonical (reduced, sign-normalized)
//! form, together with the Euclidean gcd it rests on, a toy expression
//! evaluator, and a handful of elementary functions on integers, loops and
//! strings.

pub mod decimal;
pub mod expressions;
pub mod functions;
pub mod gcd;
pub mod ifs;
pub mod loops;
pub mod rational;
pub mod strings;
