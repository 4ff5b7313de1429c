//! libinput objects, held by their handles, and the kinds of events.
use vstd::prelude::*;

verus! {

/// A libinput context.
pub struct Context {
    ptr: usize,
}

impl Context {
    #[verifier::type_invariant]
    spec fn inv(&self) -> bool {
        self.ptr != 0
    }

    /// The raw handle.
    pub closed spec fn handle(&self) -> usize {
        self.ptr
    }

    /// Wraps a raw handle; a null handle stands for failure and gives `None`.
    pub fn from_raw(ptr: usize) -> (r: Option<Self>)
        ensures
            ptr == 0 ==> r is None,
            ptr != 0 ==> (r matches Some(h) && h.handle() == ptr),
    {
        if ptr == 0 {
            None
        } else {
            Some(Context { ptr })
        }
    }

    /// The raw handle, never null.
    pub fn as_ptr(&self) -> (r: usize)
        ensures
            r == self.handle(),
            r != 0,
    {
        proof {
            use_type_invariant(self);
        }
        self.ptr
    }
}

/// A libinput event.
pub struct Event {
    ptr: usize,
}

impl Event {
    #[verifier::type_invariant]
    spec fn inv(&self) -> bool {
        self.ptr != 0
    }

    /// The raw handle.
    pub closed spec fn handle(&self) -> usize {
        self.ptr
    }

    /// Wraps a raw handle; a null handle stands for failure and gives `None`.
    pub fn from_raw(ptr: usize) -> (r: Option<Self>)
        ensures
            ptr == 0 ==> r is None,
            ptr != 0 ==> (r matches Some(h) && h.handle() == ptr),
    {
        if ptr == 0 {
            None
        } else {
            Some(Event { ptr })
        }
    }

    /// The raw handle, never null.
    pub fn as_ptr(&self) -> (r: usize)
        ensures
            r == self.handle(),
            r != 0,
    {
        proof {
            use_type_invariant(self);
        }
        self.ptr
    }
}

/// A keyboard event.
pub struct EventKeyboard {
    ptr: usize,
}

impl EventKeyboard {
    #[verifier::type_invariant]
    spec fn inv(&self) -> bool {
        self.ptr != 0
    }

    /// The raw handle.
    pub closed spec fn handle(&self) -> usize {
        self.ptr
    }

    /// Wraps a raw handle; a null handle stands for failure and gives `None`.
    pub fn from_raw(ptr: usize) -> (r: Option<Self>)
        ensures
            ptr == 0 ==> r is None,
            ptr != 0 ==> (r matches Some(h) && h.handle() == ptr),
    {
        if ptr == 0 {
            None
        } else {
            Some(EventKeyboard { ptr })
        }
    }

    /// The raw handle, never null.
    pub fn as_ptr(&self) -> (r: usize)
        ensures
            r == self.handle(),
            r != 0,
    {
        proof {
            use_type_invariant(self);
        }
        self.ptr
    }
}

/// A pointer event.
pub struct EventPointer {
    ptr: usize,
}

impl EventPointer {
    #[verifier::type_invariant]
    spec fn inv(&self) -> bool {
        self.ptr != 0
    }

    /// The raw handle.
    pub closed spec fn handle(&self) -> usize {
        self.ptr
    }

    /// Wraps a raw handle; a null handle stands for failure and gives `None`.
    pub fn from_raw(ptr: usize) -> (r: Option<Self>)
        ensures
            ptr == 0 ==> r is None,
            ptr != 0 ==> (r matches Some(h) && h.handle() == ptr),
    {
        if ptr == 0 {
            None
        } else {
            Some(EventPointer { ptr })
        }
    }

    /// The raw handle, never null.
    pub fn as_ptr(&self) -> (r: usize)
        ensures
            r == self.handle(),
            r != 0,
    {
        proof {
            use_type_invariant(self);
        }
        self.ptr
    }
}

/// The kinds of libinput events that the compositor handles.
#[derive(Clone, Copy, PartialEq, Eq, Structural, Debug)]
pub enum EventKind {
    KeyboardKey,
    PointerMotion,
    PointerButton,
    PointerScrollWheel,
    Other,
}

/// The kind of an event of libinput type `event_type`.
pub fn event_kind(event_type: i32) -> (r: EventKind)
    ensures
        r == (if event_type == 300 {
            EventKind::KeyboardKey
        } else if event_type == 400 {
            EventKind::PointerMotion
        } else if event_type == 402 {
            EventKind::PointerButton
        } else if event_type == 404 {
            EventKind::PointerScrollWheel
        } else {
            EventKind::Other
        }),
{
    match event_type {
        300 => EventKind::KeyboardKey,
        400 => EventKind::PointerMotion,
        402 => EventKind::PointerButton,
        404 => EventKind::PointerScrollWheel,
        _ => EventKind::Other,
    }
}

} // verus!
