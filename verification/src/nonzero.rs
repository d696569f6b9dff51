//! Integers that are never zero.

use vstd::prelude::*;

verus! {

/// A `u32` that is never zero.
#[derive(Clone, Copy, Debug, PartialEq, Eq, Structural)]
pub struct NonZeroU32 {
    value: u32,
}

impl View for NonZeroU32 {
    type V = u32;

    closed spec fn view(&self) -> u32 {
        self.value
    }
}

impl NonZeroU32 {
    #[verifier::type_invariant]
    spec fn inv(self) -> bool {
        self.value != 0
    }

    /// The wrapper of `value`.
    pub closed spec fn of(value: u32) -> NonZeroU32 {
        NonZeroU32 { value }
    }

    /// Wraps `value`, unless it is zero.
    pub fn new(value: u32) -> (res: Option<NonZeroU32>)
        ensures
            res == if value == 0 {
                None
            } else {
                Some(NonZeroU32::of(value))
            },
            match res {
                Some(n) => value != 0 && n@ == value,
                None => value == 0,
            },
    {
        if value == 0 {
            None
        } else {
            Some(NonZeroU32 { value })
        }
    }

    /// The wrapped integer.
    pub fn get(&self) -> (value: u32)
        ensures
            value == self@,
            value != 0,
    {
        proof {
            use_type_invariant(self);
        }
        self.value
    }
}

/// A `usize` that is never zero.
#[derive(Clone, Copy, Debug, PartialEq, Eq, Structural)]
pub struct NonZeroUsize {
    value: usize,
}

impl View for NonZeroUsize {
    type V = usize;

    closed spec fn view(&self) -> usize {
        self.value
    }
}

impl NonZeroUsize {
    #[verifier::type_invariant]
    spec fn inv(self) -> bool {
        self.value != 0
    }

    /// The wrapper of `value`.
    pub closed spec fn of(value: usize) -> NonZeroUsize {
        NonZeroUsize { value }
    }

    /// Wraps `value`, unless it is zero.
    pub fn new(value: usize) -> (res: Option<NonZeroUsize>)
        ensures
            res == if value == 0 {
                None
            } else {
                Some(NonZeroUsize::of(value))
            },
            match res {
                Some(n) => value != 0 && n@ == value,
                None => value == 0,
            },
    {
        if value == 0 {
            None
        } else {
            Some(NonZeroUsize { value })
        }
    }

    /// The wrapped integer.
    pub fn get(&self) -> (value: usize)
        ensures
            value == self@,
            value != 0,
    {
        proof {
            use_type_invariant(self);
        }
        self.value
    }
}

/// [`NonZeroU32::of`] wraps its argument, and everything is the wrapper of what it wraps.
pub proof fn lemma_of_u32(value: u32, n: NonZeroU32)
    ensures
        NonZeroU32::of(value)@ == value,
        NonZeroU32::of(n@) == n,
{
}

/// [`NonZeroUsize::of`] wraps its argument, and everything is the wrapper of what it wraps.
pub proof fn lemma_of_usize(value: usize, n: NonZeroUsize)
    ensures
        NonZeroUsize::of(value)@ == value,
        NonZeroUsize::of(n@) == n,
{
}

/// Two of them are the same when they wrap the same integer.
pub proof fn lemma_same(a: NonZeroUsize, b: NonZeroUsize)
    ensures
        a@ == b@ <==> a == b,
{
}

} // verus!
