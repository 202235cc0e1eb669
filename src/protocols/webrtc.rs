use vstd::prelude::*;

verus! {

/// The negotiated peer transport is not offered unless a caller registers
/// a probe of its own for it.
pub fn is_available() -> (r: bool)
    ensures
        !r,
{
    false
}

} // verus!
