//! A resumable read position over a sequence of items.

use vstd::prelude::*;

verus! {

/// Cursor over a vector which keeps track of where it is in the vector.
/// `index()` is the index, inside the vector, of the
/// element that the next call of `next()` hands out.
pub struct IndexedIter<T> {
    items: Vec<T>,
    index: usize,
}

impl<T> IndexedIter<T> {
    #[verifier::type_invariant]
    spec fn in_bounds(&self) -> bool {
        self.index <= self.items.len()
    }

    /// The whole sequence the cursor walks over, consumed part included.
    pub closed spec fn items(&self) -> Seq<T> {
        self.items@
    }

    /// Number of items consumed so far.
    pub closed spec fn position(&self) -> nat {
        self.index as nat
    }

    /// The items that have not been consumed yet.
    pub open spec fn remaining(&self) -> Seq<T> {
        self.items().skip(self.position() as int)
    }

    pub fn from_vec(vec: Vec<T>) -> (it: Self)
        ensures
            it.items() == vec@,
            it.position() == 0,
    {
        Self { items: vec, index: 0 }
    }

    pub fn index(&self) -> (i: usize)
        ensures
            i == self.position(),
            i <= self.items().len(),
    {
        proof {
            use_type_invariant(self);
        }
        self.index
    }

    /// Number of items left to consume.
    pub fn remaining_len(&self) -> (n: usize)
        ensures
            n == self.remaining().len(),
            n == self.items().len() - self.position(),
    {
        proof {
            use_type_invariant(self);
        }
        self.items.len() - self.index
    }


    /// Consumes `count` items without looking at them, or all that are
    /// left where fewer are left.
    pub fn advance(&mut self, count: usize)
        ensures
            final(self).items() == old(self).items(),
            old(self).position() <= old(self).items().len(),
            final(self).position() == if count <= old(self).remaining().len() {
                old(self).position() + count
            } else {
                old(self).items().len() as int
            },
    {
        proof {
            use_type_invariant(&*self);
        }
        if count <= self.items.len() - self.index {
            self.index = self.index + count;
        } else {
            self.index = self.items.len();
        }
    }
}

impl<T: Copy> IndexedIter<T> {
    /// The next item, without consuming it.
    pub fn peek(&self) -> (item: Option<T>)
        ensures
            self.position() <= self.items().len(),
            item == if self.position() < self.items().len() {
                Some(self.items()[self.position() as int])
            } else {
                None
            },
    {
        proof {
            use_type_invariant(self);
        }
        if self.index < self.items.len() {
            Some(self.items[self.index])
        } else {
            None
        }
    }

    /// Consumes and returns the next item, or returns `None`, leaving the
    /// cursor where it is, once the sequence is exhausted.
    pub fn next(&mut self) -> (item: Option<T>)
        ensures
            final(self).items() == old(self).items(),
            old(self).position() <= old(self).items().len(),
            old(self).position() < old(self).items().len() ==> {
                &&& item == Some(old(self).items()[old(self).position() as int])
                &&& final(self).position() == old(self).position() + 1
            },
            old(self).position() >= old(self).items().len() ==> {
                &&& item.is_none()
                &&& final(self).position() == old(self).position()
            },
    {
        proof {
            use_type_invariant(&*self);
        }
        if self.index < self.items.len() {
            let item = self.items[self.index];
            self.index = self.index + 1;
            Some(item)
        } else {
            None
        }
    }
}

} // verus!
