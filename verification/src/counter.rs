//! Event counters. A counter counts up to `u64::MAX` and stays there.

use vstd::prelude::*;

verus! {

/// The counter after one more event.
pub open spec fn bumped(count: u64) -> u64 {
    if count < u64::MAX {
        (count + 1) as u64
    } else {
        count
    }
}

/// The counter after `more` events.
pub open spec fn bumped_by(count: u64, more: nat) -> u64 {
    if count + more <= u64::MAX {
        (count + more) as u64
    } else {
        u64::MAX
    }
}

/// Counts one more event.
pub fn bump(count: u64) -> (next: u64)
    ensures
        next == bumped(count),
{
    if count < u64::MAX {
        count + 1
    } else {
        count
    }
}

/// Counts `more` events.
pub fn bump_by(count: u64, more: usize) -> (next: u64)
    ensures
        next == bumped_by(count, more as nat),
{
    let more64: u64 = more as u64;
    if more64 <= u64::MAX - count {
        count + more64
    } else {
        u64::MAX
    }
}

} // verus!
