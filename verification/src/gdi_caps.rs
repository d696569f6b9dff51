//! Pins the refresh rate that the game is told to 60 Hz.
//!
//! The game's animation timing is built around 60 Hz, but the scanout rate is independent
//! of it: the frame pacer drives the cadence of frames and logic ticks.

use vstd::prelude::*;

verus! {

/// The index of the vertical refresh rate.
pub const VREFRESH: i32 = 116;

/// The refresh rate that the game is told.
pub const SPOOFED_REFRESH_RATE: i32 = 60;

/// The answer to a capability query, or `None` to ask the original.
pub fn hook_get_device_caps(index: i32) -> (res: Option<i32>)
    ensures
        res == if index == VREFRESH {
            Some(SPOOFED_REFRESH_RATE)
        } else {
            None
        },
{
    if index == VREFRESH {
        Some(SPOOFED_REFRESH_RATE)
    } else {
        None
    }
}

/// The query that is answered, and the answer.
pub proof fn lemma_spoofed_rate()
    ensures
        VREFRESH == 116,
        SPOOFED_REFRESH_RATE == 60,
{
}

} // verus!
