use vstd::prelude::*;
use vstd::string::StringExecFns;

verus! {

/// The greeting for a name.
pub open spec fn greeting_of(name: Seq<char>) -> Seq<char> {
    "Hello, "@ + name + "! You've been greeted from Rust!"@
}

/// Greets the given name.
pub fn greet(name: &str) -> (r: String)
    ensures
        r@ == greeting_of(name@),
{
    "Hello, ".to_string().concat(name).concat("! You've been greeted from Rust!")
}

} // verus!
