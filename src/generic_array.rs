//! A growable array of any clonable element type, over a buffer of slots
//! that grows by half its size when full.

use vstd::prelude::*;

verus! {

/// The capacity of a new array.
pub const MIN_SIZE: usize = 10;

pub type Slot<T> = Option<T>;

#[derive(Clone)]
pub struct DynamicArray<T: Sized + Clone> {
    buf: Vec<Slot<T>>,
    cap: usize,
    pub length: usize,
}

impl<T: Sized + Clone> View for DynamicArray<T> {
    type V = Seq<T>;

    /// The stored elements, oldest first.
    closed spec fn view(&self) -> Seq<T> {
        self.buf@.take(self.length as int).map_values(|s: Slot<T>| s->Some_0)
    }
}

impl<T: Sized + Clone> DynamicArray<T> {
    /// The buffer has `cap` slots; the first `length` are in use, the rest
    /// are empty.
    pub closed spec fn well_formed(&self) -> bool {
        &&& self.buf@.len() == self.cap
        &&& self.length <= self.cap
        &&& forall|i: int| 0 <= i < self.buf@.len() ==> ((#[trigger] self.buf@[i]) is Some <==> i
            < self.length)
    }

    /// The number of slots.
    pub closed spec fn capacity(&self) -> usize {
        self.cap
    }

    /// An empty array with `MIN_SIZE` slots.
    pub fn new_array() -> (r: Self)
        ensures
            r.well_formed(),
            r@ == Seq::<T>::empty(),
            r.capacity() == MIN_SIZE,
    {
        let mut buf: Vec<Slot<T>> = Vec::new();
        let mut i: usize = 0;
        while i < MIN_SIZE
            invariant
                i <= MIN_SIZE,
                buf@.len() == i,
                forall|k: int| 0 <= k < i ==> (#[trigger] buf@[k]) is None,
            decreases MIN_SIZE - i,
        {
            buf.push(None);
            i = i + 1;
        }
        let r = DynamicArray { buf, length: 0, cap: MIN_SIZE };
        assert(r@ =~= Seq::<T>::empty());
        r
    }

    /// Grows the buffer to half as large again, or to `min_cap` slots if that
    /// is more; the elements stay where they are.
    fn grow(&mut self, min_cap: usize)
        requires
            old(self).well_formed(),
            old(self).capacity() + old(self).capacity() / 2 <= usize::MAX,
        ensures
            final(self).well_formed(),
            final(self)@ == old(self)@,
            final(self).length == old(self).length,
            final(self).capacity() == vstd::math::max(
                old(self).capacity() + old(self).capacity() / 2,
                min_cap as int,
            ),
    {
        let old_cap = self.buf.len();
        assert(old_cap >> 1usize == old_cap / 2) by (bit_vector);
        let mut new_cap = old_cap + (old_cap >> 1usize);
        if new_cap < min_cap {
            new_cap = min_cap;
        }
        self.cap = new_cap;
        while self.buf.len() < new_cap
            invariant
                self.cap == new_cap,
                self.length == old(self).length,
                old(self).buf@.len() <= self.buf@.len() <= new_cap,
                forall|i: int|
                    0 <= i < old(self).buf@.len() ==> #[trigger] self.buf@[i] == old(self).buf@[i],
                forall|i: int| old(self).buf@.len() <= i < self.buf@.len() ==> (#[trigger] self.buf@[i]) is None,
                old(self).well_formed(),
            decreases new_cap - self.buf@.len(),
        {
            self.buf.push(None);
        }
        assert(self@ =~= old(self)@);
    }

    /// Appends `value`, growing the buffer first if every slot is in use.
    pub fn append(&mut self, value: T)
        requires
            old(self).well_formed(),
            old(self)@.len() < usize::MAX,
            old(self).capacity() + old(self).capacity() / 2 <= usize::MAX,
        ensures
            final(self).well_formed(),
            final(self)@ == old(self)@.push(value),
    {
        if self.length == self.cap {
            self.grow(self.length + 1);
        }
        self.buf.set(self.length, Some(value));
        self.length += 1;
        assert(self@ =~= old(self)@.push(value));
    }

    /// A clone of the element at `index`, if there is one.
    pub fn at(&mut self, index: usize) -> (r: Slot<T>)
        requires
            old(self).well_formed(),
        ensures
            *final(self) == *old(self),
            index < old(self)@.len() ==> r is Some && cloned(old(self)@[index as int], r->Some_0),
            index >= old(self)@.len() ==> r is None,
    {
        if self.length > index {
            self.buf[index].clone()
        } else {
            None
        }
    }
}

impl<T: Sized + Clone> vstd::std_specs::core::IndexSpecImpl<usize> for DynamicArray<T> {
    open spec fn index_req(&self, index: &usize) -> bool {
        true
    }
}

impl<T: Sized + Clone> std::ops::Index<usize> for DynamicArray<T> {
    type Output = Slot<T>;

    /// The slot at `index`: the element if there is one, else `None`.
    fn index(&self, index: usize) -> (r: &Slot<T>) {
        if self.length > index && index < self.buf.len() {
            &self.buf[index]
        } else {
            &None
        }
    }
}

} // verus!
