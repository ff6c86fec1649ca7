//! The physical-page bitmap allocator.
//!
//! One bit per page id: set means in use or reserved, clear means
//! free. `clear` runs once before everything else; `reserve` removes
//! the pages the loader's own structures occupy; `allocate` hands out
//! the lowest free page. The capacity is fixed at construction and is
//! independent of the platform's actual memory size; ids index pages
//! by absolute physical address, which assumes the tracked region
//! starts near physical address zero.

use vstd::prelude::*;

use crate::bitset::Unsized;
use crate::mem::page::Id;

verus! {

/// How many page ids the allocator tracks.
pub const CAPACITY: usize = 16384;

/// A bitmap over page ids; bit set means the page is in use.
pub struct Page {
    bits: Unsized,
}

impl Page {
    /// Number of page ids tracked.
    pub closed spec fn capacity(self) -> int {
        self.bits.capacity()
    }

    /// True when page id `i` is marked in use.
    pub closed spec fn spec_used(self, i: int) -> bool {
        self.bits.spec_bit(i)
    }

    /// Number of page ids marked in use.
    pub closed spec fn spec_len(self) -> nat {
        self.bits.spec_count_words(self.bits@.len() as int)
    }

    /// The allocator is sized as built: [`CAPACITY`] tracked ids.
    pub open spec fn wf(self) -> bool {
        self.capacity() == CAPACITY
    }

    /// Bytes of backing storage the bitmap occupies.
    pub fn size_of() -> (r: usize)
        ensures
            r == CAPACITY / 8,
    {
        CAPACITY / 8
    }

    /// A fresh allocator with every tracked page marked free.
    pub fn new() -> (r: Self)
        ensures
            r.wf(),
            forall|i: int| 0 <= i < r.capacity() ==> !r.spec_used(i),
            r.spec_len() == 0,
    {
        Page { bits: Unsized::new(CAPACITY / 64) }
    }

    /// Mark every tracked page free. Runs once, before any other
    /// operation.
    pub fn clear(&mut self)
        ensures
            final(self).capacity() == old(self).capacity(),
            forall|i: int| 0 <= i < final(self).capacity() ==> !final(self).spec_used(i),
            final(self).spec_len() == 0,
    {
        self.bits.clear();
    }

    /// Mark a page in use. No precondition on its prior state:
    /// reserving an already-used page changes nothing.
    pub fn reserve(&mut self, page: Id)
        requires
            page@ < old(self).capacity(),
            old(self).capacity() <= usize::MAX,
        ensures
            final(self).capacity() == old(self).capacity(),
            final(self).spec_used(page@ as int),
            forall|i: int|
                0 <= i < final(self).capacity() && i != page@ ==> final(self).spec_used(i) == old(
                    self,
                ).spec_used(i),
    {
        let index = page.into_usize();
        self.bits.set(index);
    }

    /// Hand out the lowest free page and mark it used; `None` exactly
    /// when every tracked page is already in use. The caller treats
    /// `None` as fatal: there is no fallback memory source.
    pub fn allocate(&mut self) -> (r: Option<Id>)
        requires
            old(self).capacity() <= usize::MAX,
        ensures
            final(self).capacity() == old(self).capacity(),
            match r {
                Some(id) => {
                    &&& id@ < old(self).capacity()
                    &&& !old(self).spec_used(id@ as int)
                    &&& final(self).spec_used(id@ as int)
                    &&& forall|k: int| 0 <= k < id@ ==> old(self).spec_used(k)
                    &&& forall|i: int|
                        0 <= i < final(self).capacity() && i != id@ ==> final(self).spec_used(i)
                            == old(self).spec_used(i)
                },
                None => {
                    &&& forall|i: int| 0 <= i < old(self).capacity() ==> old(self).spec_used(i)
                    &&& *final(self) == *old(self)
                },
            },
    {
        proof {
            assert(self.bits@.len() <= usize::MAX / 64) by (nonlinear_arith)
                requires
                    self.bits@.len() * 64 <= usize::MAX,
            ;
        }
        match self.bits.peek() {
            Some(index) => {
                self.bits.set(index);
                Some(Id::from_usize(index))
            },
            None => None,
        }
    }

    /// Mark a used page free again. Freeing a page that is not in use
    /// is a loader bug, ruled out up front rather than recovered from.
    pub fn deallocate(&mut self, page: Id)
        requires
            page@ < old(self).capacity(),
            old(self).capacity() <= usize::MAX,
            old(self).spec_used(page@ as int),
        ensures
            final(self).capacity() == old(self).capacity(),
            !final(self).spec_used(page@ as int),
            forall|i: int|
                0 <= i < final(self).capacity() && i != page@ ==> final(self).spec_used(i) == old(
                    self,
                ).spec_used(i),
    {
        let index = page.into_usize();
        self.bits.unset(index);
    }

    /// True when page id `i` is currently marked in use.
    pub fn is_used(&self, index: usize) -> (r: bool)
        requires
            index < self.capacity(),
        ensures
            r == self.spec_used(index as int),
    {
        self.bits.get(index)
    }

    /// Number of pages currently in use.
    pub fn len(&self) -> (r: usize)
        requires
            self.capacity() <= usize::MAX,
        ensures
            r == self.spec_len(),
    {
        self.bits.count()
    }

    /// True when no page is in use.
    pub fn is_empty(&self) -> (r: bool)
        requires
            self.capacity() <= usize::MAX,
        ensures
            r == (self.spec_len() == 0),
    {
        self.len() == 0
    }
}

} // verus!
