//! Bounded log-site counter.

use crate::nonzero::NonZeroU32;
use vstd::prelude::*;

verus! {

/// Gates a log site so events from it don't flood the log.
pub struct LogCap {
    count: u32,
    limit: NonZeroU32,
}

impl LogCap {
    /// The calls that were let through so far.
    pub closed spec fn count(&self) -> nat {
        self.count as nat
    }

    /// How many calls are let through.
    pub closed spec fn limit(&self) -> nat {
        self.limit@ as nat
    }

    #[verifier::type_invariant]
    spec fn inv(self) -> bool {
        self.count <= self.limit@
    }

    pub fn new(limit: NonZeroU32) -> (cap: LogCap)
        ensures
            cap.count() == 0,
            cap.limit() == limit@,
    {
        LogCap { count: 0, limit }
    }

    /// Counts a call. The first `limit` calls get their number, from 0; later ones get
    /// `None`.
    pub fn tick(&mut self) -> (res: Option<u32>)
        ensures
            final(self).limit() == old(self).limit(),
            match res {
                Some(n) => {
                    &&& n == old(self).count()
                    &&& n < old(self).limit()
                    &&& final(self).count() == n + 1
                },
                None => {
                    &&& old(self).count() == old(self).limit()
                    &&& final(self).count() == old(self).count()
                },
            },
    {
        proof {
            use_type_invariant(&*self);
        }
        if self.count >= self.limit.get() {
            return None;
        }
        let n: u32 = self.count;
        self.count = n + 1;
        Some(n)
    }
}

} // verus!
