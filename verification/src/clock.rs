//! Time in Unix seconds.

use vstd::prelude::*;

verus! {

/// Unix seconds of a clock reading, none where the clock stands before the
/// epoch.
pub open spec fn seconds_of(since_epoch: Option<u64>) -> i64 {
    match since_epoch {
        Some(s) => if s > i64::MAX {
            i64::MAX
        } else {
            s as i64
        },
        None => 0,
    }
}

/// Unix seconds of a clock reading. A clock before the epoch reads zero, and
/// one past the largest value reads that.
pub fn unix_now_secs(since_epoch: Option<u64>) -> (r: i64)
    ensures
        r == seconds_of(since_epoch),
        r >= 0,
{
    match since_epoch {
        Some(s) => if s > i64::MAX as u64 {
            i64::MAX
        } else {
            s as i64
        },
        None => 0,
    }
}

/// A reading that fits is told as it is; one that does not, as the largest
/// time; and none as the epoch.
pub proof fn law_reading(s: u64)
    ensures
        seconds_of(None) == 0,
        s <= i64::MAX ==> seconds_of(Some(s)) == s,
        s > i64::MAX ==> seconds_of(Some(s)) == i64::MAX,
{
}

} // verus!
