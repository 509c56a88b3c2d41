use vstd::prelude::*;
use crate::common::ListIndex;

verus! {

/// A list that only grows, whose items are found by their index.
pub struct List<T> {
    items: Vec<T>,
}

impl<T> View for List<T> {
    type V = Seq<T>;

    closed spec fn view(&self) -> Seq<T> {
        self.items@
    }
}

impl<T> List<T> {
    /// An empty list.
    pub fn new() -> (r: List<T>)
        ensures
            r@ == Seq::<T>::empty(),
    {
        List { items: Vec::new() }
    }

    /// Appends an item; its index is the former length.
    pub fn push(&mut self, item: T)
        requires
            old(self)@.len() < u64::MAX,
        ensures
            final(self)@ == old(self)@.push(item),
    {
        self.items.push(item);
    }

    /// The item at `index`, if there is one.
    pub fn get(&self, index: ListIndex) -> (r: Option<&T>)
        ensures
            index < self@.len() ==> r == Some(&self@[index as int]),
            index >= self@.len() ==> r is None,
    {
        if index < self.items.len() as u64 {
            Some(&self.items[index as usize])
        } else {
            None
        }
    }

    /// Replaces the item at `index`, which must exist.
    pub fn update(&mut self, index: ListIndex, item: T)
        requires
            index < old(self)@.len(),
        ensures
            final(self)@ == old(self)@.update(index as int, item),
    {
        let n = self.items.len();
        assert(index < n);
        self.items.set(index as usize, item);
    }

    /// The items from `start` up to `end` (excluded), stopping at the end of the list.
    pub fn range(&self, start: ListIndex, end: ListIndex) -> (r: Vec<&T>)
        ensures
            r@.len() == (if start >= end || start >= self@.len() {
                0
            } else if end <= self@.len() {
                end - start
            } else {
                self@.len() - start
            }),
            forall|i: int| 0 <= i < r@.len() ==> *r@[i] == self@[start + i],
    {
        let n = self.items.len();
        let len = n as u64;
        let stop = if end < len {
            end
        } else {
            len
        };
        let mut r: Vec<&T> = Vec::new();
        if start >= stop {
            return r;
        }
        let mut i = start;
        while i < stop
            invariant
                start <= i <= stop,
                stop <= self@.len(),
                self@.len() == len,
                len <= usize::MAX,
                r@.len() == i - start,
                forall|j: int| 0 <= j < r@.len() ==> *r@[j] == self@[start + j],
            decreases stop - i,
        {
            r.push(&self.items[i as usize]);
            i = i + 1;
        }
        r
    }

    /// The number of items.
    pub fn len(&self) -> (r: ListIndex)
        requires
            self@.len() <= u64::MAX,
        ensures
            r == self@.len(),
    {
        self.items.len() as u64
    }
}

} // verus!
