//! Registrations of which the first wins.

use vstd::prelude::*;

verus! {

/// A value that is registered once; later registrations change nothing.
pub struct FirstWins<T> {
    value: Option<T>,
}

impl<T: Copy> FirstWins<T> {
    /// The registered value.
    pub closed spec fn value(&self) -> Option<T> {
        self.value
    }

    pub fn new() -> (slot: FirstWins<T>)
        ensures
            slot.value() is None,
    {
        FirstWins { value: None }
    }

    /// Registers `value`, unless something was registered before. Returns whether it was.
    pub fn set(&mut self, value: T) -> (first: bool)
        ensures
            first == (old(self).value() is None),
            final(self).value() == (if first {
                Some(value)
            } else {
                old(self).value()
            }),
    {
        if self.value.is_some() {
            return false;
        }
        self.value = Some(value);
        true
    }

    pub fn get(&self) -> (value: Option<T>)
        ensures
            value == self.value(),
    {
        self.value
    }
}

} // verus!
