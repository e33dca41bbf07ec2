//! A growable vector with an explicit capacity policy: zero-capacity start,
//! doubling growth when a push or insert finds it full, reservation that
//! rounds the required total up to a power of two, and shrinking to the
//! least power of two that still holds the contents.

use vstd::prelude::*;
use crate::into_iter::IntoIter;
use crate::pow2::{lemma_next_pow2_at_least, next_pow2, next_power_of_two};

verus! {

/// The capacity after one growth step: doubling, from a floor of one.
pub open spec fn grown(cap: usize) -> int {
    if cap == 0 {
        1
    } else {
        2 * cap
    }
}

/// A growable sequence of items with explicit length and capacity tracking.
pub struct MyVector<T> {
    items: Vec<T>,
    cap: usize,
}

impl<T> View for MyVector<T> {
    type V = Seq<T>;

    closed spec fn view(&self) -> Seq<T> {
        self.items@
    }
}

impl<T> MyVector<T> {
    /// The tracked capacity: how many items fit before the next growth.
    pub closed spec fn spec_capacity(self) -> usize {
        self.cap
    }

    /// The length never exceeds the capacity.
    pub closed spec fn wf(self) -> bool {
        self.items@.len() <= self.cap
    }

    /// An empty vector with no capacity.
    pub fn new() -> (v: Self)
        ensures
            v.wf(),
            v@ == Seq::<T>::empty(),
            v.spec_capacity() == 0,
    {
        Self::with_capacity(0)
    }

    /// An empty vector that holds `capacity` items before growing.
    pub fn with_capacity(capacity: usize) -> (v: Self)
        ensures
            v.wf(),
            v@ == Seq::<T>::empty(),
            v.spec_capacity() == capacity,
    {
        MyVector { items: Vec::with_capacity(capacity), cap: capacity }
    }

    /// One growth step: the capacity doubles, from a floor of one.
    fn grow(&mut self)
        requires
            old(self).wf(),
            old(self).spec_capacity() <= usize::MAX / 2,
        ensures
            final(self).wf(),
            final(self)@ == old(self)@,
            final(self).spec_capacity() == grown(old(self).spec_capacity()),
    {
        let new_capacity = if self.cap == 0 {
            1
        } else {
            self.cap * 2
        };
        self.cap = new_capacity;
    }

    /// Appends one item; a full vector grows by doubling first.
    pub fn push(&mut self, item: T)
        requires
            old(self).wf(),
            old(self)@.len() == old(self).spec_capacity() ==> old(self).spec_capacity()
                <= usize::MAX / 2,
        ensures
            final(self).wf(),
            final(self)@ == old(self)@.push(item),
            old(self)@.len() < old(self).spec_capacity() ==> final(self).spec_capacity() == old(self).spec_capacity(),
            old(self)@.len() == old(self).spec_capacity() ==> final(self).spec_capacity() == grown(
                old(self).spec_capacity(),
            ),
    {
        if self.items.len() == self.cap {
            self.grow();
        }
        self.items.push(item);
    }

    /// Removes and returns the last item; `None` when empty.
    pub fn pop(&mut self) -> (popped: Option<T>)
        requires
            old(self).wf(),
        ensures
            final(self).wf(),
            final(self).spec_capacity() == old(self).spec_capacity(),
            old(self)@.len() == 0 ==> popped is None && final(self)@ == old(self)@,
            old(self)@.len() > 0 ==> popped == Some(old(self)@.last()) && final(self)@ == old(self)@.drop_last(),
    {
        self.items.pop()
    }

    /// Inserts `item` at `index`, shifting later items one place right; a
    /// full vector grows by doubling first.
    pub fn insert(&mut self, index: usize, item: T)
        requires
            old(self).wf(),
            index <= old(self)@.len(),
            old(self)@.len() == old(self).spec_capacity() ==> old(self).spec_capacity()
                <= usize::MAX / 2,
        ensures
            final(self).wf(),
            final(self)@ == old(self)@.insert(index as int, item),
            old(self)@.len() < old(self).spec_capacity() ==> final(self).spec_capacity() == old(self).spec_capacity(),
            old(self)@.len() == old(self).spec_capacity() ==> final(self).spec_capacity() == grown(
                old(self).spec_capacity(),
            ),
    {
        if self.items.len() == self.cap {
            self.grow();
        }
        self.items.insert(index, item);
    }

    /// Removes and returns the item at `index`, shifting later items left.
    pub fn remove(&mut self, index: usize) -> (removed: T)
        requires
            old(self).wf(),
            index < old(self)@.len(),
        ensures
            final(self).wf(),
            removed == old(self)@[index as int],
            final(self)@ == old(self)@.remove(index as int),
            final(self).spec_capacity() == old(self).spec_capacity(),
    {
        self.items.remove(index)
    }

    /// Appends every item of `items` in order, after reserving room for all
    /// of them at once.
    pub fn extend(&mut self, items: Vec<T>)
        requires
            old(self).wf(),
            old(self)@.len() + items@.len() <= usize::MAX / 2 + 1,
        ensures
            final(self).wf(),
            final(self)@ == old(self)@ + items@,
            old(self)@.len() + items@.len() > old(self).spec_capacity() ==> final(self).spec_capacity() == next_pow2((old(self)@.len() + items@.len()) as nat),
            old(self)@.len() + items@.len() <= old(self).spec_capacity() ==> final(self).spec_capacity() == old(self).spec_capacity(),
    {
        let count = items.len();
        proof {
            if self.items@.len() + count > self.cap {
                lemma_next_pow2_at_least((self@.len() + count) as nat);
            }
        }
        self.reserve(count);
        let ghost base = self@;
        let ghost orig = items@;
        let ghost cap_reserved = self.spec_capacity();
        let mut items = items;

        while items.len() > 0
            invariant
                self.wf(),
                items@.len() <= orig.len(),
                items@ == orig.skip(orig.len() - items@.len()),
                self@ == base + orig.take(orig.len() - items@.len()),
                self@.len() + items@.len() == base.len() + orig.len(),
                self.spec_capacity() == cap_reserved,
                base.len() + orig.len() <= cap_reserved,
            decreases items@.len(),
        {
            let ghost consumed = orig.len() - items@.len();
            let item = items.remove(0);
            proof {
                assert(orig.skip(consumed).remove(0) =~= orig.skip(consumed + 1));
                assert(item == orig[consumed]);
                assert((base + orig.take(consumed)).push(item) =~= base + orig.take(consumed + 1));
            }
            self.push(item);
        }
        proof {
            assert(orig.take(orig.len() as int) =~= orig);
            assert(base + orig.take(orig.len() as int) == base + orig);
        }
    }

    /// Makes room for `additional` more items: if the current capacity is
    /// too small, it becomes the least power of two holding the required
    /// total.
    pub fn reserve(&mut self, additional: usize)
        requires
            old(self).wf(),
            old(self)@.len() + additional <= usize::MAX / 2 + 1,
        ensures
            final(self).wf(),
            final(self)@ == old(self)@,
            old(self)@.len() + additional > old(self).spec_capacity() ==> final(self).spec_capacity() == next_pow2((old(self)@.len() + additional) as nat),
            old(self)@.len() + additional <= old(self).spec_capacity() ==> final(self).spec_capacity() == old(self).spec_capacity(),
    {
        let required = self.items.len() + additional;
        if required > self.cap {
            proof {
                lemma_next_pow2_at_least(required as nat);
            }
            self.cap = next_power_of_two(required);
        }
    }

    /// Shrinks the capacity to the least power of two that still holds the
    /// contents, or to zero when empty; the capacity never grows here.
    pub fn shrink_to_fit(&mut self)
        requires
            old(self).wf(),
            old(self)@.len() <= usize::MAX / 2 + 1,
        ensures
            final(self).wf(),
            final(self)@ == old(self)@,
            old(self)@.len() == 0 ==> final(self).spec_capacity() == 0,
            old(self)@.len() > 0 && next_pow2(old(self)@.len() as nat) < old(self).spec_capacity()
                ==> final(self).spec_capacity() == next_pow2(old(self)@.len() as nat),
            old(self)@.len() > 0 && next_pow2(old(self)@.len() as nat) >= old(self).spec_capacity()
                ==> final(self).spec_capacity() == old(self).spec_capacity(),
    {
        if self.items.len() == 0 {
            self.cap = 0;
        } else {
            proof {
                lemma_next_pow2_at_least(self.items@.len());
            }
            let target = next_power_of_two(self.items.len());
            if target < self.cap {
                self.cap = target;
            }
        }
    }

    /// The number of items held.
    pub fn len(&self) -> (n: usize)
        ensures
            n == self@.len(),
    {
        self.items.len()
    }

    /// The tracked capacity.
    pub fn capacity(&self) -> (c: usize)
        ensures
            c == self.spec_capacity(),
    {
        self.cap
    }

    /// Whether no items are held.
    pub fn is_empty(&self) -> (empty: bool)
        ensures
            empty <==> self@.len() == 0,
    {
        self.items.len() == 0
    }

    /// Whether the next push would grow the vector.
    pub fn is_full(&self) -> (full: bool)
        requires
            self.wf(),
        ensures
            full <==> self@.len() == self.spec_capacity(),
    {
        self.items.len() == self.cap
    }

    /// Drops every item; the capacity is kept.
    pub fn clear(&mut self)
        requires
            old(self).wf(),
        ensures
            final(self).wf(),
            final(self)@ == Seq::<T>::empty(),
            final(self).spec_capacity() == old(self).spec_capacity(),
    {
        self.items.clear();
    }

    /// A reference to the item at `index`.
    pub fn get(&self, index: usize) -> (item: &T)
        requires
            index < self@.len(),
        ensures
            *item == self@[index as int],
    {
        vstd::std_specs::vec::vec_index(&self.items, index)
    }

    /// Consumes the vector, yielding its items in order.
    pub fn into_iter(self) -> (it: IntoIter<T>)
        ensures
            it@ == self@,
    {
        IntoIter::new(self.items)
    }
}

} // verus!
