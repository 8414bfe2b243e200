//! The value stack that the stack-passing engines hand from unit to unit.

use vstd::prelude::*;

verus! {

/// A stack of values, addressed from its top.
pub struct Stack {
    items: Vec<i64>,
}

impl View for Stack {
    type V = Seq<i64>;

    /// The values, the top one last.
    closed spec fn view(&self) -> Seq<i64> {
        self.items@
    }
}

impl Stack {
    /// An empty stack with room for `capacity` values before it has to grow.
    pub fn with_capacity(capacity: usize) -> (stack: Stack)
        ensures
            stack@ == Seq::<i64>::empty(),
    {
        Stack { items: Vec::with_capacity(capacity) }
    }

    /// How many values the stack holds.
    pub fn len(&self) -> (n: usize)
        ensures
            n == self@.len(),
    {
        self.items.len()
    }

    /// Puts `x` on top.
    pub fn push(&mut self, x: i64)
        ensures
            final(self)@ == old(self)@.push(x),
    {
        self.items.push(x);
    }

    /// Takes the top value off.
    pub fn pop(&mut self) -> (x: i64)
        requires
            old(self)@.len() > 0,
        ensures
            x == old(self)@.last(),
            final(self)@ == old(self)@.drop_last(),
    {
        self.items.pop().unwrap()
    }

    /// Overwrites the value `offset` slots below the first free one with `x`;
    /// offset 1 is the top.
    pub fn set_offset(&mut self, offset: usize, x: i64)
        requires
            0 < offset <= old(self)@.len(),
        ensures
            final(self)@ == old(self)@.update(old(self)@.len() - offset, x),
    {
        let at = self.items.len() - offset;
        self.items.set(at, x);
    }

    /// The value `offset` slots below the first free one; offset 1 is the
    /// top.
    pub fn get_offset(&self, offset: usize) -> (x: i64)
        requires
            0 < offset <= self@.len(),
        ensures
            x == self@[self@.len() - offset],
    {
        self.items[self.items.len() - offset]
    }
}

} // verus!
