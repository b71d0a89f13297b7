use vstd::prelude::*;

verus! {

/// The greeting answered to the front end's `greet` command.
pub open spec fn greeting(name: Seq<char>) -> Seq<char> {
    "Hello, "@ + name + "! You've been greeted from Rust!"@
}

/// Greets `name`.
pub fn greet(name: &str) -> (r: String)
    ensures
        r@ == greeting(name@),
{
    String::from_str("Hello, ").concat(name).concat("! You've been greeted from Rust!")
}

} // verus!
