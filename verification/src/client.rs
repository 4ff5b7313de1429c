//! A connected Wayland client: its objects, the file descriptors it sent and
//! those waiting to go out, and the stack changes its requests caused.
use vstd::prelude::*;

use crate::point::Point;
use crate::state::Change;
use crate::store::{Store, StoreError};
use std::collections::VecDeque;

verus! {

/// A client; `R` is the type of its objects. Object ids start at 1.
pub struct Client<R> {
    pub fd: i32,
    pub client_store: Store<1, R>,
    pub start_position: Point,
    /// File descriptors received with requests, oldest first.
    pub received_fds: VecDeque<i32>,
    /// File descriptors to send with the next event.
    pub to_send_fds: Vec<i32>,
    pub changes: Vec<Change>,
}

/// The fields of a client other than its objects are the same in `a` and `b`.
pub open spec fn other_fields_kept<R>(a: Client<R>, b: Client<R>) -> bool {
    &&& a.fd == b.fd
    &&& a.start_position == b.start_position
    &&& a.received_fds@ == b.received_fds@
    &&& a.to_send_fds@ == b.to_send_fds@
    &&& a.changes@ == b.changes@
}

impl<R> Client<R> {
    /// The client's objects.
    pub closed spec fn store(&self) -> Store<1, R> {
        self.client_store
    }

    /// A new client on connection `fd`, with no objects.
    pub fn new(fd: i32, start_position: Point) -> (r: Self)
        ensures
            r.fd == fd,
            r.start_position == start_position,
            r.store().slots() == Seq::<Option<R>>::empty(),
            r.store().wf(),
            r.received_fds@ == Seq::<i32>::empty(),
            r.to_send_fds@ == Seq::<i32>::empty(),
            r.changes@ == Seq::<Change>::empty(),
    {
        Client {
            fd,
            client_store: Store::new(),
            start_position,
            received_fds: VecDeque::new(),
            to_send_fds: Vec::new(),
            changes: Vec::new(),
        }
    }

    /// Makes room for new objects; see [`Store::ensure_objects_capacity`].
    pub fn ensure_objects_capacity(&mut self)
        requires
            (old(self).store().slots().len() + crate::store::THRESHOLD) * 2 <= isize::MAX,
        ensures
            final(self).store().highest() == old(self).store().highest(),
            old(self).store().wf() ==> final(self).store().wf(),
            if old(self).store().slots().len() - old(self).store().highest()
                - crate::store::THRESHOLD < 0 {
                &&& final(self).store().slots().len() == (old(self).store().slots().len()
                    + crate::store::THRESHOLD) * 2
                &&& final(self).store().slots().take(old(self).store().slots().len() as int)
                    == old(self).store().slots()
                &&& forall|i: int|
                    old(self).store().slots().len() <= i < final(self).store().slots().len()
                        ==> (#[trigger] final(self).store().slots()[i]) is None
            } else {
                final(self).store().slots() == old(self).store().slots()
            },
            final(self).fd == old(self).fd,
            other_fields_kept(*old(self), *final(self)),
            crate::store::capacity_step(old(self).store(), final(self).store()),
            old(self).store().wf() ==> final(self).store().slots().len()
                >= final(self).store().highest() + crate::store::THRESHOLD,
    {
        self.client_store.ensure_objects_capacity();
    }

    /// Puts a new object in the empty slot of `id`.
    pub fn new_object(&mut self, id: u32, object: R) -> (r: &mut R)
        requires
            1 <= id,
            id - 1 < old(self).store().slots().len(),
            old(self).store().slots()[id - 1] is None,
        ensures
            *r == object,
            final(self).store().slots() == old(self).store().slots().update(
                id - 1,
                Some(*final(r)),
            ),
            old(self).store().wf() ==> final(self).store().wf(),
            final(self).fd == old(self).fd,
            other_fields_kept(*old(self), *final(self)),
    {
        self.client_store.new_object(id, object)
    }

    /// Forgets the object `id`, which must exist.
    pub fn remove_object(&mut self, id: u32) -> (r: Result<(), StoreError>)
        requires
            1 <= id,
            id - 1 < old(self).store().slots().len(),
            old(self).store().slots()[id - 1] is Some,
        ensures
            r is Ok,
            final(self).store().slots() == old(self).store().slots().update(id - 1, None),
            final(self).store().highest() == old(self).store().highest(),
            final(self).fd == old(self).fd,
            other_fields_kept(*old(self), *final(self)),
    {
        self.client_store.remove_object(id)
    }

    /// The object `id`, or an error naming the id.
    pub fn get_object(&self, id: u32) -> (r: Result<&R, StoreError>)
        requires
            1 <= id,
        ensures
            match r {
                Ok(x) => self.store().get_spec(id) == Some(*x),
                Err(e) => self.store().get_spec(id) is None && e == StoreError::NoObject(id),
            },
    {
        self.client_store.get_object(id)
    }

    /// The object `id` for change, or an error naming the id.
    pub fn get_object_mut(&mut self, id: u32) -> (r: Result<&mut R, StoreError>)
        requires
            1 <= id,
        ensures
            match r {
                Ok(x) => {
                    &&& old(self).store().get_spec(id) == Some(*x)
                    &&& final(self).store().slots() == old(self).store().slots().update(
                        id - 1,
                        Some(*final(x)),
                    )
                },
                Err(e) => {
                    &&& old(self).store().get_spec(id) is None
                    &&& e == StoreError::NoObject(id)
                    &&& final(self).store().slots() == old(self).store().slots()
                },
            },
            other_fields_kept(*old(self), *final(self)),
    {
        self.client_store.get_object_mut(id)
    }

    /// The object `id`, if any.
    pub fn get_resource(&self, id: u32) -> (r: Option<&R>)
        requires
            1 <= id,
        ensures
            match r {
                Some(x) => self.store().get_spec(id) == Some(*x),
                None => self.store().get_spec(id) is None,
            },
    {
        self.client_store.get_resource(id)
    }

    /// The object `id` for change, if any.
    pub fn get_resource_mut(&mut self, id: u32) -> (r: Option<&mut R>)
        requires
            1 <= id,
        ensures
            match r {
                Some(x) => {
                    &&& old(self).store().get_spec(id) == Some(*x)
                    &&& final(self).store().slots() == old(self).store().slots().update(
                        id - 1,
                        Some(*final(x)),
                    )
                },
                None => {
                    &&& old(self).store().get_spec(id) is None
                    &&& final(self).store().slots() == old(self).store().slots()
                },
            },
            other_fields_kept(*old(self), *final(self)),
    {
        self.client_store.get_resource_mut(id)
    }

    /// Every object of the client, in id order.
    pub fn objects(&self) -> (r: Vec<&R>)
        ensures
            r@.len() == crate::store::present(self.store().slots()).len(),
            forall|i: int|
                0 <= i < r@.len() ==> *r@[i] == crate::store::present(self.store().slots())[i],
    {
        self.client_store.objects()
    }

    /// Records file descriptors that came with a request.
    pub fn receive_fds(&mut self, fds: &[i32])
        ensures
            final(self).received_fds@ == old(self).received_fds@ + fds@,
            final(self).to_send_fds == old(self).to_send_fds,
            final(self).fd == old(self).fd,
    {
        let mut i: usize = 0;
        while i < fds.len()
            invariant
                i <= fds@.len(),
                self.received_fds@ == old(self).received_fds@ + fds@.take(i as int),
                self.to_send_fds == old(self).to_send_fds,
                self.fd == old(self).fd,
            decreases fds@.len() - i,
        {
            self.received_fds.push_back(fds[i]);
            proof {
                assert(fds@.take(i + 1) =~= fds@.take(i as int).push(fds@[i as int]));
            }
            i = i + 1;
        }
        proof {
            assert(fds@.take(fds@.len() as int) =~= fds@);
        }
    }

    /// The oldest received file descriptor, taken off the queue.
    pub fn take_received_fd(&mut self) -> (r: Option<i32>)
        ensures
            match r {
                Some(fd) => old(self).received_fds@.len() > 0 && fd == old(
                    self,
                ).received_fds@[0] && final(self).received_fds@ == old(
                    self,
                ).received_fds@.drop_first(),
                None => old(self).received_fds@.len() == 0 && final(self).received_fds@
                    == old(self).received_fds@,
            },
            final(self).to_send_fds == old(self).to_send_fds,
    {
        self.received_fds.pop_front()
    }

    /// The file descriptors to send with the next event, taken off the
    /// queue.
    pub fn take_fds_to_send(&mut self) -> (r: Vec<i32>)
        ensures
            r@ == old(self).to_send_fds@,
            final(self).to_send_fds@ == Seq::<i32>::empty(),
            final(self).received_fds == old(self).received_fds,
            final(self).fd == old(self).fd,
    {
        let mut out: Vec<i32> = Vec::new();
        core::mem::swap(&mut out, &mut self.to_send_fds);
        out
    }
}

} // verus!
