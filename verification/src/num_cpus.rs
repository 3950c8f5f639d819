//! The number of execution units to count on.

use vstd::prelude::*;

verus! {

/// The number of execution units of the host: `available`, which is what the host
/// says of itself, or one where it says nothing.
pub fn get(available: Option<usize>) -> (r: usize)
    ensures
        r == match available {
            Some(n) => n,
            None => 1,
        },
{
    match available {
        Some(n) => n,
        None => 1,
    }
}

} // verus!
