//! A last-in, first-out stack.

use vstd::prelude::*;

verus! {

pub struct Stack<T> {
    stack: Vec<T>,
}

impl<T> View for Stack<T> {
    type V = Seq<T>;

    /// The elements, bottom first.
    closed spec fn view(&self) -> Seq<T> {
        self.stack@
    }
}

impl<T> Stack<T> {
    /// An empty stack.
    pub fn new() -> (r: Stack<T>)
        ensures
            r@ == Seq::<T>::empty(),
    {
        Stack { stack: Vec::new() }
    }

    /// Removes and returns the top element; `None` when empty.
    pub fn pop(&mut self) -> (r: Option<T>)
        ensures
            old(self)@.len() == 0 ==> r is None && final(self)@ == old(self)@,
            old(self)@.len() > 0 ==> r == Some(old(self)@.last()) && final(self)@
                == old(self)@.drop_last(),
    {
        self.stack.pop()
    }

    /// Puts `value` on top.
    pub fn push(&mut self, value: T)
        ensures
            final(self)@ == old(self)@.push(value),
    {
        self.stack.push(value);
    }

    /// Whether the stack holds nothing.
    pub fn is_empty(&self) -> (r: bool)
        ensures
            r == (self@.len() == 0),
    {
        self.stack.is_empty()
    }

    /// The number of elements.
    pub fn length(&self) -> (r: usize)
        ensures
            r == self@.len(),
    {
        self.stack.len()
    }

    /// The top element, left in place; `None` when empty.
    pub fn peek(&self) -> (r: Option<&T>)
        ensures
            self@.len() == 0 ==> r is None,
            self@.len() > 0 ==> r == Some(&self@.last()),
    {
        let n = self.stack.len();
        if n == 0 {
            None
        } else {
            Some(&self.stack[n - 1])
        }
    }
}

} // verus!
