//! A value that is set once, after start-up, and read afterwards.
use vstd::prelude::*;

verus! {

/// A slot that starts empty and is filled once.
pub struct GlobalWrapper<T> {
    value: Option<T>,
}

impl<T> GlobalWrapper<T> {
    /// What the slot holds.
    pub closed spec fn value(&self) -> Option<T> {
        self.value
    }

    /// An empty slot.
    pub fn empty() -> (r: Self)
        ensures
            r.value() is None,
    {
        GlobalWrapper { value: None }
    }

    /// Fills the slot.
    pub fn initialize(&mut self, value: T)
        ensures
            final(self).value() == Some(value),
    {
        self.value = Some(value);
    }

    /// The value in the slot, which must be filled.
    pub fn get(&self) -> (r: &T)
        requires
            self.value() is Some,
        ensures
            Some(*r) == self.value(),
    {
        self.value.as_ref().unwrap()
    }

    /// The value in the slot for change, which must be filled.
    pub fn get_mut(&mut self) -> (r: &mut T)
        requires
            old(self).value() is Some,
        ensures
            Some(*r) == old(self).value(),
            final(self).value() == Some(*final(r)),
    {
        self.value.as_mut().unwrap()
    }
}

} // verus!
