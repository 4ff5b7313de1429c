//! The udev library context, held by its handle.
use vstd::prelude::*;

verus! {

/// A udev context.
pub struct Instance {
    ptr: usize,
}

impl Instance {
    #[verifier::type_invariant]
    spec fn inv(&self) -> bool {
        self.ptr != 0
    }

    /// The raw handle.
    pub closed spec fn handle(&self) -> usize {
        self.ptr
    }

    /// Wraps a raw handle; a null handle stands for failure and gives `None`.
    pub fn from_raw(ptr: usize) -> (r: Option<Self>)
        ensures
            ptr == 0 ==> r is None,
            ptr != 0 ==> (r matches Some(h) && h.handle() == ptr),
    {
        if ptr == 0 {
            None
        } else {
            Some(Instance { ptr })
        }
    }

    /// The raw handle, never null.
    pub fn as_ptr(&self) -> (r: usize)
        ensures
            r == self.handle(),
            r != 0,
    {
        proof {
            use_type_invariant(self);
        }
        self.ptr
    }
}

} // verus!
