use vstd::prelude::*;

verus! {

/// The direct local link needs no adapter query: it is always offered.
pub fn is_available() -> (r: bool)
    ensures
        r,
{
    true
}

} // verus!
