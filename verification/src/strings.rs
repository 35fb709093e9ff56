//! Silly greeting, with the produced text pinned down exactly.

use vstd::prelude::*;

verus! {

use vstd::string::StringExecFns;

/// Silly function to print a greeting message
pub fn hello(name: &str) -> (r: String)
    ensures
        r@ == "Hello, "@ + name@,
{
    let mut s = String::new();
    s.append("Hello, ");
    s.append(name);
    s
}

} // verus!
