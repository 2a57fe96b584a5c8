//! The greeting shown by the host page.

use vstd::prelude::*;
use vstd::string::*;

verus! {

/// The text of the greeting for `name`.
pub open spec fn greeting(name: Seq<char>) -> Seq<char> {
    "Hello, "@ + name + "!"@
}

/// Greets `name`.
pub fn greet(name: &str) -> (text: String)
    ensures
        text@ == greeting(name@),
{
    String::from_str("Hello, ").concat(name).concat("!")
}

} // verus!
