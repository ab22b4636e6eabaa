//! Counters that stop at their largest value instead of wrapping.

use vstd::prelude::*;

verus! {

/// A counter raised by `by`, stopping at the largest value.
pub open spec fn bump(counter: u64, by: nat) -> u64 {
    if counter + by <= u64::MAX {
        (counter + by) as u64
    } else {
        u64::MAX
    }
}

/// Raises a counter by `by`, stopping at the largest value.
pub fn raised(counter: u64, by: u64) -> (r: u64)
    ensures
        r == bump(counter, by as nat),
        r >= counter,
{
    if by <= u64::MAX - counter {
        counter + by
    } else {
        u64::MAX
    }
}

} // verus!
