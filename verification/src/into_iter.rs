//! A double-ended consuming iterator over the vector's items.

use vstd::prelude::*;

verus! {

/// Owns the remaining items; they can be taken from either end.
pub struct IntoIter<T> {
    items: Vec<T>,
}

impl<T> View for IntoIter<T> {
    type V = Seq<T>;

    closed spec fn view(&self) -> Seq<T> {
        self.items@
    }
}

impl<T> IntoIter<T> {
    /// Takes ownership of the items to hand out.
    pub fn new(items: Vec<T>) -> (it: Self)
        ensures
            it@ == items@,
    {
        IntoIter { items }
    }

    /// How many items are left.
    pub fn len(&self) -> (n: usize)
        ensures
            n == self@.len(),
    {
        self.items.len()
    }

    /// Takes the next item from the front, if any is left.
    pub fn next(&mut self) -> (item: Option<T>)
        ensures
            old(self)@.len() == 0 ==> item is None && final(self)@ == old(self)@,
            old(self)@.len() > 0 ==> item == Some(old(self)@.first()) && final(self)@ == old(self)@.drop_first(),
    {
        if self.items.len() == 0 {
            None
        } else {
            let item = self.items.remove(0);
            proof {
                assert(old(self)@.remove(0) =~= old(self)@.drop_first());
            }
            Some(item)
        }
    }

    /// Takes the next item from the back, if any is left.
    pub fn next_back(&mut self) -> (item: Option<T>)
        ensures
            old(self)@.len() == 0 ==> item is None && final(self)@ == old(self)@,
            old(self)@.len() > 0 ==> item == Some(old(self)@.last()) && final(self)@ == old(self)@.drop_last(),
    {
        self.items.pop()
    }
}

} // verus!
