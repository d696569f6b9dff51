//! Windows in which a memory region is writable.

use vstd::prelude::*;

verus! {

/// The number of protection windows open across all threads.
pub struct ActiveWindows {
    count: u32,
}

impl View for ActiveWindows {
    type V = nat;

    closed spec fn view(&self) -> nat {
        self.count as nat
    }
}

/// How the end of a window was reached.
#[derive(Clone, Copy, Debug, PartialEq, Eq, Structural)]
pub enum WindowEnd {
    /// The protection could not be changed: nothing was written.
    NotOpened,
    /// The region was written, and its protection restored as far as possible.
    Written,
}

impl ActiveWindows {
    pub fn new() -> (windows: ActiveWindows)
        ensures
            windows@ == 0,
    {
        ActiveWindows { count: 0 }
    }

    /// Counts a window that is about to open. Returns whether another one is open.
    pub fn open(&mut self) -> (overlaps: bool)
        requires
            old(self)@ < u32::MAX,
        ensures
            overlaps == (old(self)@ > 0),
            final(self)@ == old(self)@ + 1,
    {
        let overlaps = self.count > 0;
        self.count = self.count + 1;
        overlaps
    }

    /// Counts a window that is closed, however it ended. Returns whether the region was
    /// written; a failure to restore the protection is ignored.
    pub fn close(&mut self, end: WindowEnd) -> (written: bool)
        requires
            old(self)@ > 0,
        ensures
            written == (end == WindowEnd::Written),
            final(self)@ == old(self)@ - 1,
    {
        self.count = self.count - 1;
        match end {
            WindowEnd::Written => true,
            WindowEnd::NotOpened => false,
        }
    }
}

} // verus!
