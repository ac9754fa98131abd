//! A first-in, first-out list: append at the back, pop from the front.

use vstd::prelude::*;

verus! {

pub struct List<T: Sized + Clone> {
    items: Vec<T>,
    pub length: usize,
}

impl<T: Sized + Clone> View for List<T> {
    type V = Seq<T>;

    /// The elements, front first.
    closed spec fn view(&self) -> Seq<T> {
        self.items@
    }
}

impl<T: Sized + Clone> List<T> {
    /// `length` counts the elements.
    pub closed spec fn well_formed(&self) -> bool {
        self.length == self.items@.len()
    }

    /// An empty list.
    pub fn new_empty() -> (r: List<T>)
        ensures
            r.well_formed(),
            r@ == Seq::<T>::empty(),
    {
        List { items: Vec::new(), length: 0 }
    }

    /// Appends `value` at the back.
    pub fn append(&mut self, value: T)
        requires
            old(self).well_formed(),
            old(self)@.len() < usize::MAX,
        ensures
            final(self).well_formed(),
            final(self)@ == old(self)@.push(value),
    {
        self.items.push(value);
        self.length += 1;
    }

    /// Removes and returns the front element; `None` when empty.
    pub fn pop(&mut self) -> (r: Option<T>)
        requires
            old(self).well_formed(),
        ensures
            final(self).well_formed(),
            old(self)@.len() == 0 ==> r is None && final(self)@ == old(self)@,
            old(self)@.len() > 0 ==> r == Some(old(self)@[0]) && final(self)@ == old(self)@.drop_first(),
    {
        if self.items.len() == 0 {
            None
        } else {
            let head = self.items.remove(0);
            self.length -= 1;
            assert(self@ =~= old(self)@.drop_first());
            Some(head)
        }
    }
}

} // verus!
