//! Pacing of the windows: at most ten lookups are started in any second.
//!
//! The throttle decides once per window, on the time the window took. It
//! counts on a window's lookups to return well within the second; where they
//! do not, the pace is approximate, not a hard bound.

use vstd::prelude::*;

verus! {

/// The number of lookups that may be started per second.
pub const OPERATIONS_PER_SECOND: usize = 10;

/// The length of the interval that the cap is counted over, in milliseconds.
pub const INTERVAL_MILLIS: u64 = 1000;

/// The time still to wait once a window has taken `elapsed` milliseconds:
/// what is missing to a full second, and nothing once the second is over.
pub open spec fn remaining_delay(elapsed: int) -> int {
    if elapsed >= 1000 {
        0
    } else {
        1000 - elapsed
    }
}

/// The wait before the next window may start, in milliseconds, given the
/// milliseconds that have passed since the current one began.
pub fn remaining_delay_millis(elapsed_millis: u128) -> (r: u64)
    ensures
        r == remaining_delay(elapsed_millis as int),
{
    if elapsed_millis >= 1000 {
        0
    } else {
        let part: u64 = elapsed_millis as u64;
        INTERVAL_MILLIS - part
    }
}

/// A window and the wait that follows it last a second or more together,
/// and the wait itself never exceeds a second.
pub proof fn lemma_window_fills_interval(elapsed: int)
    requires
        0 <= elapsed,
    ensures
        elapsed + remaining_delay(elapsed) >= 1000,
        0 <= remaining_delay(elapsed) <= 1000,
        remaining_delay(elapsed) == 0 <==> elapsed >= 1000,
{
}

} // verus!
