//! The windows that the rows are looked up in: contiguous runs of at most ten
//! rows that tile the input.

use vstd::prelude::*;
use crate::rate_limiter::OPERATIONS_PER_SECOND;

verus! {

/// The most rows that one window holds.
pub const WINDOW_SIZE: usize = OPERATIONS_PER_SECOND;

/// A run of rows: those at the positions from `start` up to, not including,
/// `end`.
#[derive(Debug, Clone, Copy, PartialEq, Eq, Structural)]
pub struct Window {
    pub start: usize,
    pub end: usize,
}

/// Where the window that starts at `start` ends, among `total` rows.
pub open spec fn window_end(start: int, total: int) -> int {
    if start + 10 < total {
        start + 10
    } else {
        total
    }
}

/// The number of windows that `total` rows fall into: a tenth of them,
/// rounded up.
pub open spec fn window_count(total: int) -> int {
    (total + 9) / 10
}

/// Whether position `p` lies in the `k`-th window of `total` rows.
pub open spec fn in_window(k: int, p: int, total: int) -> bool {
    10 * k <= p < window_end(10 * k, total)
}

/// The window that starts at `start`, or none where no row is left there.
pub fn next_window(start: usize, total: usize) -> (r: Option<Window>)
    ensures
        start >= total <==> r is None,
        r matches Some(w) ==> w.start == start && w.end == window_end(start as int, total as int),
{
    if start >= total {
        None
    } else if total - start > WINDOW_SIZE {
        Some(Window { start, end: start + WINDOW_SIZE })
    } else {
        Some(Window { start, end: total })
    }
}

/// All windows of `total` rows, in order.
pub fn windows(total: usize) -> (r: Vec<Window>)
    ensures
        r@.len() == window_count(total as int),
        forall|k: int|
            0 <= k < r@.len() ==> (#[trigger] r@[k]).start == 10 * k && r@[k].end == window_end(
                10 * k,
                total as int,
            ),
{
    let mut all: Vec<Window> = Vec::new();
    let mut start: usize = 0;
    while start < total
        invariant
            start <= total,
            start < total ==> start == 10 * all@.len(),
            start == total ==> all@.len() == window_count(total as int),
            forall|k: int|
                0 <= k < all@.len() ==> (#[trigger] all@[k]).start == 10 * k && all@[k].end
                    == window_end(10 * k, total as int),
        decreases total - start,
    {
        if total - start > WINDOW_SIZE {
            all.push(Window { start, end: start + WINDOW_SIZE });
            start = start + WINDOW_SIZE;
        } else {
            all.push(Window { start, end: total });
            start = total;
        }
    }
    all
}

/// The windows tile the rows: there are a tenth as many as rows, rounded up;
/// none is empty or holds more than ten; the first starts with the first
/// row, each next one starts where the one before it ends, and the last ends
/// with the last row; so every row lies in exactly one window.
pub proof fn lemma_windows_tile(total: int)
    requires
        0 <= total,
    ensures
        10 * (window_count(total) - 1) < total <= 10 * window_count(total) || total == 0,
        total == 0 ==> window_count(total) == 0,
        forall|k: int|
            0 <= k < window_count(total) ==> 0 < #[trigger] window_end(10 * k, total) - 10 * k
                <= 10,
        forall|k: int|
            0 <= k < window_count(total) - 1 ==> #[trigger] window_end(10 * k, total) == 10 * (k
                + 1),
        total > 0 ==> window_end(10 * (window_count(total) - 1), total) == total,
        forall|p: int|
            0 <= p < total ==> 0 <= p / 10 < window_count(total) && #[trigger] in_window(
                p / 10,
                p,
                total,
            ),
        forall|k: int, p: int| #[trigger] in_window(k, p, total) && 0 <= p ==> k == p / 10,
{
}

} // verus!
