//! The bump allocator itself.

use vstd::prelude::*;

use crate::heap::align;
use crate::heap::spec_align_to;

verus! {

/// A bump allocator: `next` walks from `start` to `end`, and only
/// returning every allocation rewinds it.
#[derive(Clone, Copy, Debug, PartialEq, Eq, Structural)]
pub struct Allocator {
    start: usize,
    end: usize,
    next: usize,
    allocations: usize,
}

impl Allocator {
    /// First address of the window.
    pub closed spec fn spec_start(self) -> usize {
        self.start
    }

    /// First address past the window.
    pub closed spec fn spec_end(self) -> usize {
        self.end
    }

    /// Next address to hand out.
    pub closed spec fn spec_next(self) -> usize {
        self.next
    }

    /// Number of outstanding allocations.
    pub closed spec fn spec_allocations(self) -> usize {
        self.allocations
    }

    /// An allocator over the empty window.
    pub fn new() -> (r: Self)
        ensures
            r.spec_start() == 0,
            r.spec_end() == 0,
            r.spec_next() == 0,
            r.spec_allocations() == 0,
    {
        Allocator { start: 0, end: 0, next: 0, allocations: 0 }
    }

    /// Hand the allocator its window. Runs once, before any
    /// allocation.
    pub fn init(&mut self, start: usize, size: usize)
        requires
            start + size <= usize::MAX,
        ensures
            final(self).spec_start() == start,
            final(self).spec_end() == start + size,
            final(self).spec_next() == start,
            final(self).spec_allocations() == old(self).spec_allocations(),
    {
        self.start = start;
        self.end = start + size;
        self.next = start;
    }

    /// Carve `size` bytes at the given power-of-two alignment out of
    /// the window: the aligned cursor when the block fits, `None` when
    /// the window is exhausted.
    pub fn allocate(&mut self, size: usize, alignment: usize) -> (r: Option<usize>)
        requires
            alignment > 0,
            old(self).spec_next() + alignment <= usize::MAX,
            old(self).spec_allocations() < usize::MAX,
        ensures
            final(self).spec_start() == old(self).spec_start(),
            final(self).spec_end() == old(self).spec_end(),
            match r {
                Some(addr) => {
                    &&& addr == spec_align_to(old(self).spec_next() as int, alignment as int)
                    &&& addr % alignment == 0
                    &&& addr + size <= old(self).spec_end()
                    &&& final(self).spec_next() == addr + size
                    &&& final(self).spec_allocations() == old(self).spec_allocations() + 1
                },
                None => {
                    &&& (spec_align_to(old(self).spec_next() as int, alignment as int) + size
                        > old(self).spec_end() || spec_align_to(
                        old(self).spec_next() as int,
                        alignment as int,
                    ) + size > usize::MAX)
                    &&& *final(self) == *old(self)
                },
            },
    {
        let aligned = align(self.next, alignment);
        if size > usize::MAX - aligned {
            return None;
        }
        let end = aligned + size;
        if end > self.end {
            None
        } else {
            self.next = end;
            self.allocations = self.allocations + 1;
            Some(aligned)
        }
    }

    /// Return one allocation; when the last one comes back the whole
    /// window is recycled.
    pub fn deallocate(&mut self)
        requires
            old(self).spec_allocations() > 0,
        ensures
            final(self).spec_start() == old(self).spec_start(),
            final(self).spec_end() == old(self).spec_end(),
            final(self).spec_allocations() == old(self).spec_allocations() - 1,
            final(self).spec_next() == if old(self).spec_allocations() == 1 {
                old(self).spec_start()
            } else {
                old(self).spec_next()
            },
    {
        self.allocations = self.allocations - 1;
        if self.allocations == 0 {
            self.next = self.start;
        }
    }
}

} // verus!
