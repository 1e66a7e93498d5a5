use vstd::prelude::*;

verus! {

/// The greeting the control endpoint serves at its root path.
pub fn index() -> (r: &'static str)
    ensures
        r@ == "foo bar"@,
{
    "foo bar"
}

} // verus!
