//! GBM objects, held by their handles.
use vstd::prelude::*;

verus! {

/// A GBM buffer object.
pub struct BufferObject {
    ptr: usize,
}

impl BufferObject {
    #[verifier::type_invariant]
    spec fn inv(&self) -> bool {
        self.ptr != 0
    }

    /// The raw handle.
    pub closed spec fn handle(&self) -> usize {
        self.ptr
    }

    /// Wraps a raw handle; a null handle stands for failure and gives `None`.
    pub fn from_raw(ptr: usize) -> (r: Option<Self>)
        ensures
            ptr == 0 ==> r is None,
            ptr != 0 ==> (r matches Some(h) && h.handle() == ptr),
    {
        if ptr == 0 {
            None
        } else {
            Some(BufferObject { ptr })
        }
    }

    /// The raw handle, never null.
    pub fn as_ptr(&self) -> (r: usize)
        ensures
            r == self.handle(),
            r != 0,
    {
        proof {
            use_type_invariant(self);
        }
        self.ptr
    }
}

/// A GBM device.
pub struct Device {
    ptr: usize,
}

impl Device {
    #[verifier::type_invariant]
    spec fn inv(&self) -> bool {
        self.ptr != 0
    }

    /// The raw handle.
    pub closed spec fn handle(&self) -> usize {
        self.ptr
    }

    /// Wraps a raw handle; a null handle stands for failure and gives `None`.
    pub fn from_raw(ptr: usize) -> (r: Option<Self>)
        ensures
            ptr == 0 ==> r is None,
            ptr != 0 ==> (r matches Some(h) && h.handle() == ptr),
    {
        if ptr == 0 {
            None
        } else {
            Some(Device { ptr })
        }
    }

    /// The raw handle, never null.
    pub fn as_ptr(&self) -> (r: usize)
        ensures
            r == self.handle(),
            r != 0,
    {
        proof {
            use_type_invariant(self);
        }
        self.ptr
    }
}

/// A GBM surface.
pub struct Surface {
    ptr: u64,
}

impl Surface {
    #[verifier::type_invariant]
    spec fn inv(&self) -> bool {
        self.ptr != 0
    }

    /// The raw handle.
    pub closed spec fn handle(&self) -> u64 {
        self.ptr
    }

    /// Wraps a raw handle; a null handle stands for failure and gives `None`.
    pub fn from_raw(ptr: u64) -> (r: Option<Self>)
        ensures
            ptr == 0 ==> r is None,
            ptr != 0 ==> (r matches Some(h) && h.handle() == ptr),
    {
        if ptr == 0 {
            None
        } else {
            Some(Surface { ptr })
        }
    }

    /// The raw handle, never null.
    pub fn as_ptr(&self) -> (r: u64)
        ensures
            r == self.handle(),
            r != 0,
    {
        proof {
            use_type_invariant(self);
        }
        self.ptr
    }
}

/// What the compositor attaches to a buffer object: the framebuffer made
/// from it.
#[derive(Clone, Copy, PartialEq, Eq, Structural, Debug)]
pub struct UserData {
    fb: u32,
}

impl UserData {
    /// The data for framebuffer `fb`.
    pub fn new(fb: u32) -> (r: Self)
        ensures
            r.fb_spec() == fb,
    {
        UserData { fb }
    }

    pub closed spec fn fb_spec(&self) -> u32 {
        self.fb
    }

    /// The framebuffer.
    pub fn fb(&self) -> (r: u32)
        ensures
            r == self.fb_spec(),
    {
        self.fb
    }
}

} // verus!
