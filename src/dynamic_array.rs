//! A growable array of `u64` that doubles its capacity when full.

use vstd::prelude::*;

verus! {

pub type Slot = Option<u64>;

pub struct DynamicArray {
    buf: Vec<Slot>,
    cap: usize,
    pub length: usize,
}

impl View for DynamicArray {
    type V = Seq<u64>;

    /// The stored elements, oldest first.
    closed spec fn view(&self) -> Seq<u64> {
        self.buf@.map_values(|s: Slot| s->Some_0)
    }
}

impl DynamicArray {
    /// Every slot in use holds an element, and `length` counts them.
    pub closed spec fn well_formed(&self) -> bool {
        &&& self.length == self.buf@.len()
        &&& forall|i: int| 0 <= i < self.buf@.len() ==> (#[trigger] self.buf@[i]) is Some
    }

    /// The capacity the array will grow from.
    pub closed spec fn capacity(&self) -> usize {
        self.cap
    }

    /// An empty array with room for `capacity` elements.
    pub fn new(capacity: usize) -> (r: Self)
        ensures
            r.well_formed(),
            r@ == Seq::<u64>::empty(),
            r.capacity() == capacity,
    {
        DynamicArray { buf: Vec::with_capacity(capacity), cap: capacity, length: 0 }
    }

    /// Appends `element`, doubling the capacity first if the array is full.
    pub fn add(&mut self, element: u64)
        requires
            old(self).well_formed(),
            old(self)@.len() < usize::MAX,
            old(self)@.len() == old(self).capacity() ==> old(self).capacity() <= usize::MAX / 2,
        ensures
            final(self).well_formed(),
            final(self)@ == old(self)@.push(element),
            final(self).capacity() == if old(self)@.len() == old(self).capacity() {
                2 * old(self).capacity()
            } else {
                old(self).capacity() as int
            },
    {
        if self.length == self.cap {
            self.resize()
        }
        self.buf.push(Some(element));
        self.length += 1;
        assert(self@ =~= old(self)@.push(element));
    }

    /// Removes and returns the last element; `None` when empty.
    pub fn remove(&mut self) -> (r: Option<u64>)
        requires
            old(self).well_formed(),
        ensures
            final(self).well_formed(),
            final(self).capacity() == old(self).capacity(),
            old(self)@.len() == 0 ==> r is None && final(self)@ == old(self)@,
            old(self)@.len() > 0 ==> r == Some(old(self)@.last()) && final(self)@
                == old(self)@.drop_last(),
    {
        if self.length == 0 {
            None
        } else {
            self.length -= 1;
            let r = match self.buf.pop() {
                Some(slot) => slot,
                None => None,
            };
            assert(self@ =~= old(self)@.drop_last());
            r
        }
    }

    /// The element at `index`, if there is one.
    pub fn get(&mut self, index: usize) -> (r: Option<u64>)
        requires
            old(self).well_formed(),
        ensures
            *final(self) == *old(self),
            index < old(self)@.len() ==> r == Some(old(self)@[index as int]),
            index >= old(self)@.len() ==> r is None,
    {
        if index < self.length {
            self.buf[index]
        } else {
            None
        }
    }

    /// Doubles the capacity.
    pub fn resize(&mut self)
        requires
            old(self).capacity() <= usize::MAX / 2,
        ensures
            final(self).capacity() == 2 * old(self).capacity(),
            final(self)@ == old(self)@,
            old(self).well_formed() ==> final(self).well_formed(),
    {
        self.cap *= 2;
        self.buf.reserve(self.cap);
    }
}

} // verus!
