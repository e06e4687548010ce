//! The bump allocator and the growth capability it consumes.

use vstd::prelude::*;
use vstd::arithmetic::power2::is_pow2;
use crate::align::{checked_align_up, lemma_align_up_is_aligned, lemma_pow2_is_positive};
use crate::config::{check_config, config_error, valid_config, ConfigError};
use crate::model::{lemma_fixed_exhaustion, lemma_granted_block, Heap, Outcome};
use crate::region::{EWRAM_START, NULL};

verus! {

/// The capability to commit more memory to a growable heap.
pub trait GrowHeap {
    /// Asks for `fit` more bytes of committed memory. Returns the new
    /// committed end, or `NULL` when no more memory can be committed.
    fn grow(&self, fit: isize) -> usize;
}

/// The growth capability of a heap that cannot grow: every request fails.
pub struct NoGrowth;

impl GrowHeap for NoGrowth {
    fn grow(&self, fit: isize) -> (end: usize)
        ensures
            end == NULL,
    {
        NULL
    }
}

/// A bump allocator over a window of the working-RAM region.
///
/// Blocks are handed out at rising addresses and never taken back.
pub struct EwramAllocator {
    growable: bool,
    offset: usize,
    limit: usize,
    end: usize,
    cursor: usize,
}

impl View for EwramAllocator {
    type V = Heap;

    closed spec fn view(&self) -> Heap {
        Heap {
            growable: self.growable,
            start: EWRAM_START + self.offset,
            limit: self.limit as int,
            end: self.end as int,
            cursor: self.cursor as int,
        }
    }
}

impl EwramAllocator {
    #[verifier::type_invariant]
    spec fn inv(self) -> bool {
        self@.wf()
    }

    /// Makes an allocator whose window of `limit` bytes begins `offset` bytes
    /// into the region. A fixed heap is committed up to its ceiling; a
    /// growable one has nothing committed yet.
    pub fn new(growable: bool, offset: isize, limit: isize) -> (heap: Self)
        requires
            valid_config(offset as int, limit as int),
        ensures
            heap@ == Heap::fresh(growable, offset as int, limit as int),
            heap@.cursor == EWRAM_START + offset,
            growable ==> heap@.end == NULL,
            !growable ==> heap@.end == EWRAM_START + offset + limit,
            heap@.wf(),
    {
        let start: usize = EWRAM_START + offset as usize;
        let end: usize = if growable {
            NULL
        } else {
            start + limit as usize
        };
        EwramAllocator { growable, offset: offset as usize, limit: limit as usize, end, cursor: start }
    }

    /// Makes an allocator as `new` does, or names the rule that `offset` and
    /// `limit` break.
    pub fn try_new(growable: bool, offset: isize, limit: isize) -> (r: Result<Self, ConfigError>)
        ensures
            r is Ok <==> valid_config(offset as int, limit as int),
            match r {
                Ok(heap) => heap@ == Heap::fresh(growable, offset as int, limit as int)
                    && heap@.wf(),
                Err(e) => config_error(offset as int, limit as int) == Some(e),
            },
    {
        match check_config(offset, limit) {
            Ok(()) => Ok(Self::new(growable, offset, limit)),
            Err(e) => Err(e),
        }
    }

    /// Start and end of a block of `size` bytes aligned to `align`, if it
    /// would lie inside the window.
    fn block(&self, size: usize, align: usize) -> (r: Option<(usize, usize)>)
        requires
            is_pow2(align as int),
        ensures
            self@.wf(),
            match r {
                Some((start, end)) => {
                    &&& self@.within_limit(size as int, align as int)
                    &&& start == self@.block_start(align as int)
                    &&& end == self@.block_end(size as int, align as int)
                    &&& self@.cursor <= start <= end
                },
                None => !self@.within_limit(size as int, align as int),
            },
    {
        proof {
            use_type_invariant(self);
            lemma_pow2_is_positive(align as int);
            lemma_align_up_is_aligned(self.cursor as int, align as int);
        }
        let ceiling: usize = EWRAM_START + self.offset + self.limit;
        match checked_align_up(self.cursor, align) {
            None => None,
            Some(start) => match start.checked_add(size) {
                None => None,
                Some(end) => if end <= ceiling {
                    Some((start, end))
                } else {
                    None
                },
            },
        }
    }

    /// The number of bytes to ask the growth capability for before a block of
    /// `size` bytes aligned to `align` can be granted, or `None` when no
    /// growth is called for.
    pub fn shortfall(&self, size: usize, align: usize) -> (fit: Option<isize>)
        requires
            is_pow2(align as int),
        ensures
            match fit {
                Some(n) => self@.shortfall(size as int, align as int) == Some(n as int),
                None => self@.shortfall(size as int, align as int) is None,
            },
    {
        match self.block(size, align) {
            None => None,
            Some((_, end)) => {
                if self.growable && end > self.end {
                    let committed: usize = if self.end == NULL {
                        EWRAM_START + self.offset
                    } else {
                        self.end
                    };
                    Some((end - committed) as isize)
                } else {
                    None
                }
            },
        }
    }

    /// Serves a request for `size` bytes aligned to `align`, given the answer
    /// `grown` of the growth capability. The answer is looked at only when
    /// the request has a shortfall.
    pub fn allocate_with(&mut self, size: usize, align: usize, grown: usize) -> (addr: usize)
        requires
            is_pow2(align as int),
        ensures
            (Outcome { heap: final(self)@, addr: addr as int }) == old(self)@.step(
                size as int,
                align as int,
                grown as int,
            ),
            addr == NULL ==> final(self)@ == old(self)@,
            addr != NULL ==> {
                &&& addr % align == 0
                &&& old(self)@.cursor <= addr
                &&& addr + size == final(self)@.cursor
                &&& final(self)@.cursor <= old(self)@.ceiling()
            },
            !old(self)@.growable ==> (addr == NULL <==> old(self)@.block_end(
                size as int,
                align as int,
            ) > old(self)@.ceiling()),
            final(self)@.wf(),
    {
        proof {
            use_type_invariant(&*self);
            lemma_pow2_is_positive(align as int);
            lemma_granted_block(self@, size as int, align as int, grown as int);
            if !self.growable {
                lemma_fixed_exhaustion(self@, size as int, align as int, grown as int);
            }
        }
        match self.block(size, align) {
            None => NULL,
            Some((start, end)) => {
                if end <= self.end {
                    self.cursor = end;
                    start
                } else if self.growable && grown != NULL && end <= grown {
                    self.end = grown;
                    self.cursor = end;
                    start
                } else {
                    NULL
                }
            },
        }
    }

    /// Serves a request for `size` bytes aligned to `align`. A request with a
    /// shortfall asks `grower` once, for the shortfall, and goes by its
    /// answer; any other request is served without it.
    pub fn allocate<G: GrowHeap>(&mut self, size: usize, align: usize, grower: &G) -> (addr: usize)
        requires
            is_pow2(align as int),
        ensures
            exists|grown: usize|
                (Outcome { heap: final(self)@, addr: addr as int }) == #[trigger] old(self)@.step(
                    size as int,
                    align as int,
                    grown as int,
                ),
            old(self)@.shortfall(size as int, align as int) is None ==> (Outcome {
                heap: final(self)@,
                addr: addr as int,
            }) == old(self)@.step(size as int, align as int, NULL as int),
            addr == NULL ==> final(self)@ == old(self)@,
            addr != NULL ==> {
                &&& addr % align == 0
                &&& old(self)@.cursor <= addr
                &&& addr + size == final(self)@.cursor
                &&& final(self)@.cursor <= old(self)@.ceiling()
            },
            !old(self)@.growable ==> (addr == NULL <==> old(self)@.block_end(
                size as int,
                align as int,
            ) > old(self)@.ceiling()),
            final(self)@.wf(),
    {
        let grown: usize = match self.shortfall(size, align) {
            None => NULL,
            Some(fit) => grower.grow(fit),
        };
        self.allocate_with(size, align, grown)
    }

    /// Whether the commitment may grow on demand.
    pub fn is_growable(&self) -> (r: bool)
        ensures
            r == self@.growable,
    {
        self.growable
    }

    /// Distance in bytes from the start of the region to the start of the
    /// window.
    pub fn offset(&self) -> (r: usize)
        ensures
            r == self@.start - EWRAM_START,
    {
        self.offset
    }

    /// Number of bytes in the window.
    pub fn limit(&self) -> (r: usize)
        ensures
            r == self@.limit,
    {
        self.limit
    }

    /// End of the committed part of the window, or `NULL` while nothing is
    /// committed.
    pub fn end(&self) -> (r: usize)
        ensures
            r == self@.end,
    {
        self.end
    }

    /// The high-water mark: the address below which every granted block
    /// lies.
    pub fn cursor(&self) -> (r: usize)
        ensures
            r == self@.cursor,
    {
        self.cursor
    }

    /// Gives a block back. A bump allocator takes nothing back: the state
    /// stays as it was, whatever the arguments.
    pub fn deallocate(&mut self, addr: usize, size: usize, align: usize)
        ensures
            *final(self) == *old(self),
            final(self)@ == old(self)@,
    {
    }
}

} // verus!
