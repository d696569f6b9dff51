//! Pins the scheduler timer resolution at 1 ms.
//!
//! The resolution is raised once, and the game's own calls are stubbed, so that it doesn't
//! flap each frame.

use vstd::prelude::*;

verus! {

pub const MMSYSERR_NOERROR: u32 = 0;

/// What the stubs report, for every period.
pub fn stub_time_period(_period: u32) -> (res: u32)
    ensures
        res == MMSYSERR_NOERROR,
{
    MMSYSERR_NOERROR
}

/// Whether the stubs are installed: only once the resolution could be pinned, or the game's
/// own calls are all there is.
pub fn wants_stubs(pinned: u32) -> (res: bool)
    ensures
        res == (pinned == MMSYSERR_NOERROR),
{
    pinned == MMSYSERR_NOERROR
}

/// Whether the installation is as it should be: the resolution is pinned, and the two stubs
/// are both in place or both not.
pub fn consistent(pin_ok: bool, begin: bool, end: bool) -> (res: bool)
    ensures
        res == (pin_ok && begin == end),
{
    pin_ok && begin == end
}

/// Success is zero.
pub proof fn lemma_no_error()
    ensures
        MMSYSERR_NOERROR == 0,
{
}

} // verus!
