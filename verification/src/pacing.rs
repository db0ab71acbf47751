//! Pacing the playback of a video or a camera: after a frame has been
//! processed, the event loop waits for the rest of the frame's time slot,
//! but always at least one millisecond so that key presses are seen.
use vstd::prelude::*;
use crate::geometry::{fits_i32, max};

verus! {

/// The time to wait, in milliseconds, when a frame lasts `delay` and its
/// processing took `elapsed`: the remaining time, but at least 1.
pub fn wait_time(delay: i32, elapsed: i32) -> (w: i32)
    requires
        fits_i32(delay - elapsed),
    ensures
        w == max(1, delay - elapsed),
        w >= 1,
{
    let rest = delay - elapsed;
    if rest > 1 {
        rest
    } else {
        1
    }
}

/// Waiting never makes a frame shorter than its slot when processing was
/// quick, and never blocks the loop when it was slow: the processing time
/// plus the wait is the frame's slot, or more only by the one millisecond
/// that is always waited.
pub proof fn lemma_wait_fills_slot(delay: int, elapsed: int)
    ensures
        elapsed + max(1, delay - elapsed) == max(delay, elapsed + 1),
{
}

} // verus!
