//! The greeting of the host.
use vstd::prelude::*;

verus! {

/// The line that the host greets with.
pub fn display() -> (r: String)
    ensures
        r@ == "Hello, world!"@,
{
    "Hello, world!".to_string()
}

} // verus!
