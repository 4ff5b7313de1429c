//! The objects of a client, kept in slots indexed by object id.
use vstd::prelude::*;

verus! {

/// Why an object could not be found.
#[derive(Clone, Copy, PartialEq, Eq, Structural, Debug)]
pub enum StoreError {
    /// No object has this id.
    NoObject(u32),
}

/// The slots that are kept free beyond the highest id in use.
pub const THRESHOLD: usize = 10;

/// The objects that the slots hold, in slot order.
pub open spec fn present<T>(s: Seq<Option<T>>) -> Seq<T>
    decreases s.len(),
{
    if s.len() == 0 {
        Seq::empty()
    } else {
        match s.last() {
            Some(x) => present(s.drop_last()).push(x),
            None => present(s.drop_last()),
        }
    }
}

/// Objects indexed by id; ids start at `START`, which is slot 0.
pub struct Store<const START: u32, T> {
    objects: Vec<Option<T>>,
    highest_index: u32,
}

impl<const START: u32, T> Store<START, T> {
    /// The slots, in id order.
    pub closed spec fn slots(&self) -> Seq<Option<T>> {
        self.objects@
    }

    /// The highest slot that was ever filled.
    pub closed spec fn highest(&self) -> u32 {
        self.highest_index
    }

    /// The highest slot in use is a slot of the store (or the store is empty).
    pub open spec fn wf(&self) -> bool {
        self.highest() < self.slots().len() || (self.slots().len() == 0 && self.highest() == 0)
    }

    /// The object with id `id`, if any.
    pub open spec fn get_spec(&self, id: u32) -> Option<T> {
        if START <= id && id - START < self.slots().len() {
            self.slots()[id - START]
        } else {
            None
        }
    }

    /// An empty store.
    pub fn new() -> (r: Self)
        ensures
            r.slots() == Seq::<Option<T>>::empty(),
            r.highest() == 0,
            r.wf(),
    {
        Store { objects: Vec::new(), highest_index: 0 }
    }

    /// The slot of an id.
    pub fn wl_id_to_index(id: u32) -> (r: usize)
        requires
            START <= id,
        ensures
            r == id - START,
    {
        (id - START) as usize
    }

    /// The slot of an id.
    pub fn id_to_index(id: u32) -> (r: usize)
        requires
            START <= id,
        ensures
            r == id - START,
    {
        (id - START) as usize
    }

    /// Makes room for new objects: when fewer than `THRESHOLD` slots are left
    /// beyond the highest one in use, the number of slots grows to twice the
    /// old number plus `THRESHOLD`; the new slots are empty. Afterwards at
    /// least `THRESHOLD` slots are left beyond the highest one in use, so a
    /// second call changes nothing.
    pub fn ensure_objects_capacity(&mut self)
        requires
            (old(self).slots().len() + THRESHOLD) * 2 <= isize::MAX,
        ensures
            capacity_step(*old(self), *final(self)),
            old(self).wf() ==> final(self).slots().len() >= final(self).highest() + THRESHOLD,
            final(self).highest() == old(self).highest(),
            old(self).wf() ==> final(self).wf(),
            if old(self).slots().len() - old(self).highest() - THRESHOLD < 0 {
                &&& final(self).slots().len() == (old(self).slots().len() + THRESHOLD) * 2
                &&& final(self).slots().take(old(self).slots().len() as int) == old(self).slots()
                &&& forall|i: int|
                    old(self).slots().len() <= i < final(self).slots().len() ==> (
                    #[trigger] final(self).slots()[i]) is None
            } else {
                final(self).slots() == old(self).slots()
            },
    {
        if ((self.objects.len() as i64 - self.highest_index as i64) - THRESHOLD as i64) < 0 {
            let new_len = (self.objects.len() + THRESHOLD) * 2;
            let ghost before = self.objects@;
            while self.objects.len() < new_len
                invariant
                    before.len() <= self.objects.len() <= new_len,
                    self.highest_index == old(self).highest_index,
                    self.objects@.take(before.len() as int) == before,
                    forall|i: int|
                        before.len() <= i < self.objects.len() ==> (#[trigger] self.objects@[i]) is None,
                decreases new_len - self.objects.len(),
            {
                self.objects.push(None);
                proof {
                    assert(self.objects@.take(before.len() as int) =~= before);
                }
            }
        }
        proof {
            if old(self).wf() {
                lemma_capacity_after_ensure(*old(self), *self);
            }
        }
    }

    /// Puts `object` in the empty slot of `id` and returns it.
    pub fn new_object(&mut self, id: u32, object: T) -> (r: &mut T)
        requires
            START <= id,
            id - START < old(self).slots().len(),
            old(self).slots()[id - START] is None,
        ensures
            *r == object,
            old(self).wf() ==> final(self).wf(),
            final(self).slots() == old(self).slots().update(id - START, Some(*final(r))),
            final(self).highest() == if old(self).highest() < id - START {
                (id - START) as u32
            } else {
                old(self).highest()
            },
    {
        let index = Self::wl_id_to_index(id);
        let index32 = index as u32;
        if self.highest_index < index32 {
            self.highest_index = index32;
        }
        let slot = &mut self.objects[index];
        *slot = Some(object);
        slot.as_mut().unwrap()
    }

    /// Empties the slot of `id`, which must hold an object.
    pub fn remove_object(&mut self, id: u32) -> (r: Result<(), StoreError>)
        requires
            START <= id,
            id - START < old(self).slots().len(),
            old(self).slots()[id - START] is Some,
        ensures
            r is Ok,
            final(self).slots() == old(self).slots().update(id - START, None),
            final(self).highest() == old(self).highest(),
    {
        let index = Self::wl_id_to_index(id);
        self.objects.set(index, None);
        Ok(())
    }

    /// The object with id `id`, if any.
    pub fn get_resource(&self, id: u32) -> (r: Option<&T>)
        requires
            START <= id,
        ensures
            match r {
                Some(x) => self.get_spec(id) == Some(*x),
                None => self.get_spec(id) is None,
            },
    {
        let index = Self::id_to_index(id);
        if index < self.objects.len() {
            match &self.objects[index] {
                Some(x) => Some(x),
                None => None,
            }
        } else {
            None
        }
    }

    /// The object with id `id`, if any, for change.
    pub fn get_resource_mut(&mut self, id: u32) -> (r: Option<&mut T>)
        requires
            START <= id,
        ensures
            match r {
                Some(x) => {
                    &&& old(self).get_spec(id) == Some(*x)
                    &&& final(self).slots() == old(self).slots().update(id - START, Some(*final(x)))
                },
                None => {
                    &&& old(self).get_spec(id) is None
                    &&& final(self).slots() == old(self).slots()
                },
            },
            final(self).highest() == old(self).highest(),
    {
        let index = Self::id_to_index(id);
        if index < self.objects.len() {
            self.objects[index].as_mut()
        } else {
            None
        }
    }

    /// The object with id `id`, or an error naming the id.
    pub fn get_object(&self, id: u32) -> (r: Result<&T, StoreError>)
        requires
            START <= id,
        ensures
            match r {
                Ok(x) => self.get_spec(id) == Some(*x),
                Err(e) => self.get_spec(id) is None && e == StoreError::NoObject(id),
            },
    {
        match self.get_resource(id) {
            Some(x) => Ok(x),
            None => Err(StoreError::NoObject(id)),
        }
    }

    /// The object with id `id` for change, or an error naming the id.
    pub fn get_object_mut(&mut self, id: u32) -> (r: Result<&mut T, StoreError>)
        requires
            START <= id,
        ensures
            match r {
                Ok(x) => {
                    &&& old(self).get_spec(id) == Some(*x)
                    &&& final(self).slots() == old(self).slots().update(id - START, Some(*final(x)))
                },
                Err(e) => {
                    &&& old(self).get_spec(id) is None
                    &&& e == StoreError::NoObject(id)
                    &&& final(self).slots() == old(self).slots()
                },
            },
            final(self).highest() == old(self).highest(),
    {
        match self.get_resource_mut(id) {
            Some(x) => Ok(x),
            None => Err(StoreError::NoObject(id)),
        }
    }

    /// Every object of the store, in id order.
    pub fn objects(&self) -> (r: Vec<&T>)
        ensures
            r@.len() == present(self.slots()).len(),
            forall|i: int| 0 <= i < r@.len() ==> *r@[i] == present(self.slots())[i],
    {
        let mut r: Vec<&T> = Vec::new();
        let mut i: usize = 0;
        while i < self.objects.len()
            invariant
                i <= self.objects.len(),
                r@.len() == present(self.objects@.take(i as int)).len(),
                forall|k: int|
                    0 <= k < r@.len() ==> *r@[k] == present(self.objects@.take(i as int))[k],
            decreases self.objects.len() - i,
        {
            proof {
                assert(self.objects@.take(i + 1).drop_last() =~= self.objects@.take(i as int));
                assert(self.objects@.take(i + 1).last() == self.objects@[i as int]);
            }
            if let Some(x) = &self.objects[i] {
                r.push(x);
            }
            i = i + 1;
        }
        proof {
            assert(self.objects@.take(self.objects.len() as int) =~= self.objects@);
        }
        r
    }
}

impl<const START: u32, T> Default for Store<START, T> {
    fn default() -> (r: Self)
        ensures
            r.slots() == Seq::<Option<T>>::empty(),
            r.highest() == 0,
    {
        Store::new()
    }
}

/// A read gives back what was just written, and a write to one id leaves the
/// other ids alone.
pub proof fn lemma_read_after_write<const START: u32, T>(
    before: Store<START, T>,
    after: Store<START, T>,
    id: u32,
    object: T,
    other: u32,
)
    requires
        START <= id,
        id - START < before.slots().len(),
        after.slots() == before.slots().update(id - START, Some(object)),
        other != id,
    ensures
        after.get_spec(id) == Some(object),
        after.get_spec(other) == before.get_spec(other),
{
}

/// After a removal the id holds no object, and the other ids are untouched.
pub proof fn lemma_read_after_remove<const START: u32, T>(
    before: Store<START, T>,
    after: Store<START, T>,
    id: u32,
    other: u32,
)
    requires
        START <= id,
        id - START < before.slots().len(),
        after.slots() == before.slots().update(id - START, None),
        other != id,
    ensures
        after.get_spec(id) is None,
        after.get_spec(other) == before.get_spec(other),
{
}

/// Making room keeps every object where it was.
pub proof fn lemma_capacity_keeps_objects<const START: u32, T>(
    before: Store<START, T>,
    after: Store<START, T>,
    id: u32,
)
    requires
        after.slots().len() >= before.slots().len(),
        after.slots().take(before.slots().len() as int) == before.slots(),
        forall|i: int|
            before.slots().len() <= i < after.slots().len() ==> (#[trigger] after.slots()[i]) is None,
    ensures
        after.get_spec(id) == before.get_spec(id),
{
    if START <= id && id - START < before.slots().len() {
        assert(after.slots()[id - START] == after.slots().take(before.slots().len() as int)[id
            - START]);
    }
}

/// After making room in a well-formed store, there are at least `THRESHOLD`
/// slots beyond the highest one in use.
pub proof fn lemma_capacity_after_ensure<const START: u32, T>(
    before: Store<START, T>,
    after: Store<START, T>,
)
    requires
        before.wf(),
        after.highest() == before.highest(),
        if before.slots().len() - before.highest() - THRESHOLD < 0 {
            after.slots().len() == (before.slots().len() + THRESHOLD) * 2
        } else {
            after.slots() == before.slots()
        },
    ensures
        after.slots().len() >= after.highest() + THRESHOLD,
        after.wf(),
{
}

/// What making room does: `after` is `before` after
/// [`Store::ensure_objects_capacity`].
pub open spec fn capacity_step<const START: u32, T>(
    before: Store<START, T>,
    after: Store<START, T>,
) -> bool {
    &&& after.highest() == before.highest()
    &&& if before.slots().len() - before.highest() - THRESHOLD < 0 {
        &&& after.slots().len() == (before.slots().len() + THRESHOLD) * 2
        &&& after.slots().take(before.slots().len() as int) == before.slots()
        &&& forall|i: int|
            before.slots().len() <= i < after.slots().len() ==> (#[trigger] after.slots()[i]) is None
    } else {
        after.slots() == before.slots()
    }
}

/// Making room twice in a row changes nothing the second time.
pub proof fn lemma_capacity_twice<const START: u32, T>(
    first: Store<START, T>,
    second: Store<START, T>,
    third: Store<START, T>,
)
    requires
        first.wf(),
        capacity_step(first, second),
        capacity_step(second, third),
    ensures
        third.slots() == second.slots(),
        third.highest() == second.highest(),
{
    lemma_capacity_after_ensure(first, second);
}

} // verus!
