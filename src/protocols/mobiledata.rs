use vstd::prelude::*;

verus! {

/// The cellular relay is the last resort and is always offered.
pub fn is_available() -> (r: bool)
    ensures
        r,
{
    true
}

} // verus!
