//! Event producers: the DRM device and the input devices.
use vstd::prelude::*;

use crate::libinput;

verus! {

/// An event of the DRM device.
#[derive(Clone, Copy, PartialEq, Eq, Structural, Debug)]
pub enum DrmMessage {
    PageFlip { tv_sec: u32, tv_usec: u32, sequence: u32, crtc_id: u32 },
}

/// An event of the input devices.
pub enum InputMessage {
    Event { event: libinput::Event },
}

/// The input producer: a libinput context.
pub struct Input {
    pub context: libinput::Context,
}

impl Input {
    /// The producer that reads events from `context`.
    pub fn new(context: libinput::Context) -> (r: Self)
        ensures
            r.context == context,
    {
        Input { context }
    }
}

/// The Wayland producer: a client's stream and the buffer that receives the
/// arguments of one request.
pub struct Wl<S> {
    pub stream: S,
    pub params: Vec<u8>,
}

impl<S> Wl<S> {
    /// The producer that reads requests from `stream`.
    pub fn new(stream: S) -> (r: Self)
        ensures
            r.stream == stream,
            r.params@ == Seq::<u8>::empty(),
    {
        Wl { stream, params: Vec::new() }
    }

    /// Makes the argument buffer `len` bytes long, all zero, ready to be read
    /// into.
    pub fn reset_params(&mut self, len: usize)
        ensures
            final(self).params@ == Seq::new(len as nat, |i: int| 0u8),
            final(self).stream == old(self).stream,
    {
        self.params.clear();
        while self.params.len() < len
            invariant
                self.params@.len() <= len,
                forall|i: int| 0 <= i < self.params@.len() ==> self.params@[i] == 0u8,
                self.stream == old(self).stream,
            decreases len - self.params.len(),
        {
            self.params.push(0u8);
        }
        proof {
            assert(self.params@ =~= Seq::new(len as nat, |i: int| 0u8));
        }
    }

    /// Empties the argument buffer once the request was handled.
    pub fn clear_params(&mut self)
        ensures
            final(self).params@ == Seq::<u8>::empty(),
            final(self).stream == old(self).stream,
    {
        self.params.clear();
    }
}

} // verus!
