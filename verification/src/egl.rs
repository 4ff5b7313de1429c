//! EGL objects, held by their handles.
use vstd::prelude::*;

verus! {

/// An EGL frame buffer configuration.
pub struct Config {
    ptr: u64,
}

impl Config {
    #[verifier::type_invariant]
    spec fn inv(&self) -> bool {
        self.ptr != 0
    }

    /// The raw handle.
    pub closed spec fn handle(&self) -> u64 {
        self.ptr
    }

    /// Wraps a raw handle; a null handle stands for failure and gives `None`.
    pub fn from_raw(ptr: u64) -> (r: Option<Self>)
        ensures
            ptr == 0 ==> r is None,
            ptr != 0 ==> (r matches Some(h) && h.handle() == ptr),
    {
        if ptr == 0 {
            None
        } else {
            Some(Config { ptr })
        }
    }

    /// The raw handle, never null.
    pub fn as_ptr(&self) -> (r: u64)
        ensures
            r == self.handle(),
            r != 0,
    {
        proof {
            use_type_invariant(self);
        }
        self.ptr
    }
}

/// An EGL rendering context.
#[derive(Debug)]
pub struct Context {
    ptr: u64,
}

impl Clone for Context {
    /// Another handle to the same object.
    fn clone(&self) -> (r: Self)
        ensures
            r.handle() == self.handle(),
    {
        proof {
            use_type_invariant(self);
        }
        Context { ptr: self.ptr }
    }
}

impl Context {
    #[verifier::type_invariant]
    spec fn inv(&self) -> bool {
        self.ptr != 0
    }

    /// The raw handle.
    pub closed spec fn handle(&self) -> u64 {
        self.ptr
    }

    /// Wraps a raw handle; a null handle stands for failure and gives `None`.
    pub fn from_raw(ptr: u64) -> (r: Option<Self>)
        ensures
            ptr == 0 ==> r is None,
            ptr != 0 ==> (r matches Some(h) && h.handle() == ptr),
    {
        if ptr == 0 {
            None
        } else {
            Some(Context { ptr })
        }
    }

    /// The raw handle, never null.
    pub fn as_ptr(&self) -> (r: u64)
        ensures
            r == self.handle(),
            r != 0,
    {
        proof {
            use_type_invariant(self);
        }
        self.ptr
    }
}

/// An EGL display.
#[derive(Debug)]
pub struct Display {
    ptr: u64,
}

impl Clone for Display {
    /// Another handle to the same object.
    fn clone(&self) -> (r: Self)
        ensures
            r.handle() == self.handle(),
    {
        proof {
            use_type_invariant(self);
        }
        Display { ptr: self.ptr }
    }
}

impl Display {
    #[verifier::type_invariant]
    spec fn inv(&self) -> bool {
        self.ptr != 0
    }

    /// The raw handle.
    pub closed spec fn handle(&self) -> u64 {
        self.ptr
    }

    /// Wraps a raw handle; a null handle stands for failure and gives `None`.
    pub fn from_raw(ptr: u64) -> (r: Option<Self>)
        ensures
            ptr == 0 ==> r is None,
            ptr != 0 ==> (r matches Some(h) && h.handle() == ptr),
    {
        if ptr == 0 {
            None
        } else {
            Some(Display { ptr })
        }
    }

    /// The raw handle, never null.
    pub fn as_ptr(&self) -> (r: u64)
        ensures
            r == self.handle(),
            r != 0,
    {
        proof {
            use_type_invariant(self);
        }
        self.ptr
    }
}

/// An EGL image.
#[derive(Debug)]
pub struct Image {
    ptr: u64,
}

impl Clone for Image {
    /// Another handle to the same object.
    fn clone(&self) -> (r: Self)
        ensures
            r.handle() == self.handle(),
    {
        proof {
            use_type_invariant(self);
        }
        Image { ptr: self.ptr }
    }
}

impl Image {
    #[verifier::type_invariant]
    spec fn inv(&self) -> bool {
        self.ptr != 0
    }

    /// The raw handle.
    pub closed spec fn handle(&self) -> u64 {
        self.ptr
    }

    /// Wraps a raw handle; a null handle stands for failure and gives `None`.
    pub fn from_raw(ptr: u64) -> (r: Option<Self>)
        ensures
            ptr == 0 ==> r is None,
            ptr != 0 ==> (r matches Some(h) && h.handle() == ptr),
    {
        if ptr == 0 {
            None
        } else {
            Some(Image { ptr })
        }
    }

    /// The raw handle, never null.
    pub fn as_ptr(&self) -> (r: u64)
        ensures
            r == self.handle(),
            r != 0,
    {
        proof {
            use_type_invariant(self);
        }
        self.ptr
    }
}

/// An EGL surface.
pub struct Surface {
    ptr: u64,
}

impl Surface {
    #[verifier::type_invariant]
    spec fn inv(&self) -> bool {
        self.ptr != 0
    }

    /// The raw handle.
    pub closed spec fn handle(&self) -> u64 {
        self.ptr
    }

    /// Wraps a raw handle; a null handle stands for failure and gives `None`.
    pub fn from_raw(ptr: u64) -> (r: Option<Self>)
        ensures
            ptr == 0 ==> r is None,
            ptr != 0 ==> (r matches Some(h) && h.handle() == ptr),
    {
        if ptr == 0 {
            None
        } else {
            Some(Surface { ptr })
        }
    }

    /// The raw handle, never null.
    pub fn as_ptr(&self) -> (r: u64)
        ensures
            r == self.handle(),
            r != 0,
    {
        proof {
            use_type_invariant(self);
        }
        self.ptr
    }
}

} // verus!
