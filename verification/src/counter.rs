//! Numbers that count up and start again at 0 after the largest.

use vstd::prelude::*;

verus! {

/// The number after a number.
pub open spec fn following(number: u64) -> u64 {
    if number == u64::MAX {
        0
    } else {
        (number + 1) as u64
    }
}

/// The number after a number.
pub fn next_number(number: u64) -> (next: u64)
    ensures
        next == following(number),
{
    number.wrapping_add(1)
}

} // verus!
