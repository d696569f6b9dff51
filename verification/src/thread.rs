//! Render-thread identity.
//!
//! The render thread is claimed at the game's first device creation, by the thread
//! that makes it, and never changes hands.

use vstd::prelude::*;

verus! {

/// A witness that its holder runs on the render thread.
pub struct MainToken {
    tid: u32,
}

impl View for MainToken {
    type V = u32;

    closed spec fn view(&self) -> u32 {
        self.tid
    }
}

/// Which thread is the render thread; 0 while none has claimed it.
pub struct MainThread {
    tid: u32,
}

impl View for MainThread {
    type V = u32;

    closed spec fn view(&self) -> u32 {
        self.tid
    }
}

/// How a claim ended.
pub enum Claim {
    /// The thread holds the claim from now on.
    Claimed(MainToken),
    /// The thread held the claim before.
    Confirmed(MainToken),
    /// Another thread holds the claim.
    Refused { main: u32 },
}

impl MainThread {
    /// No thread has claimed anything.
    pub fn new() -> (main: MainThread)
        ensures
            main@ == 0,
    {
        MainThread { tid: 0 }
    }

    /// Claims the render thread for thread `current`, or confirms an existing claim by it.
    pub fn claim(&mut self, current: u32) -> (claim: Claim)
        requires
            current != 0,
        ensures
            final(self)@ == owner_after(old(self)@, current),
            match claim {
                Claim::Claimed(tok) => old(self)@ == 0 && tok@ == current,
                Claim::Confirmed(tok) => old(self)@ == current && tok@ == current,
                Claim::Refused { main } => old(self)@ != 0 && old(self)@ != current && main == old(
                    self,
                )@,
            },
    {
        if self.tid == 0 {
            self.tid = current;
            Claim::Claimed(MainToken { tid: current })
        } else if self.tid == current {
            Claim::Confirmed(MainToken { tid: current })
        } else {
            Claim::Refused { main: self.tid }
        }
    }

    /// The thread that holds the claim, or 0.
    pub fn main_id(&self) -> (tid: u32)
        ensures
            tid == self@,
    {
        self.tid
    }

    /// Returns a token exactly when thread `current` holds the claim.
    pub fn current(&self, current: u32) -> (res: Option<MainToken>)
        ensures
            match res {
                Some(tok) => self@ != 0 && self@ == current && tok@ == current,
                None => self@ == 0 || self@ != current,
            },
    {
        if self.tid != 0 && self.tid == current {
            Some(MainToken { tid: current })
        } else {
            None
        }
    }
}

/// The owner of the claim after thread `current` tried to claim it.
pub open spec fn owner_after(owner: u32, current: u32) -> u32 {
    if owner == 0 {
        current
    } else {
        owner
    }
}

/// The claim is never handed over: once a thread holds it, whoever tries later, it is
/// still the holder.
pub proof fn lemma_claim_is_permanent(owner: u32, first: u32, second: u32)
    requires
        first != 0,
    ensures
        owner_after(owner_after(owner, first), second) == owner_after(owner, first),
        owner_after(owner, first) != 0,
{
}

/// The first thread to claim gets the claim.
pub proof fn lemma_first_claim(owner: u32, current: u32)
    ensures
        owner_after(0, current) == current,
        owner != 0 ==> owner_after(owner, current) == owner,
{
}

} // verus!
