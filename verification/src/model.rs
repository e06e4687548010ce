//! The allocator as a mathematical state machine over integer addresses.

use vstd::prelude::*;
use crate::align::{align_up, lemma_align_up_is_aligned};
use crate::region::{EWRAM_SIZE, EWRAM_START, NULL};

verus! {

/// The state of one allocator: its window and how far it has been used.
pub struct Heap {
    /// Whether the committed part of the window may be extended on demand.
    pub growable: bool,
    /// Address of the first byte of the window.
    pub start: int,
    /// Number of bytes in the window.
    pub limit: int,
    /// End of the committed part of the window, `NULL` while nothing is
    /// committed.
    pub end: int,
    /// High-water mark: every byte handed out so far lies below it.
    pub cursor: int,
}

/// What an allocation request leads to.
pub struct Outcome {
    /// The state after the request.
    pub heap: Heap,
    /// Address of the granted block, or `NULL` when the request is refused.
    pub addr: int,
}

impl Heap {
    /// The state of a fresh allocator whose window of `limit` bytes begins
    /// `offset` bytes into the region.
    pub open spec fn fresh(growable: bool, offset: int, limit: int) -> Heap {
        Heap {
            growable,
            start: EWRAM_START + offset,
            limit,
            end: if growable {
                NULL as int
            } else {
                EWRAM_START + offset + limit
            },
            cursor: EWRAM_START + offset,
        }
    }

    /// One past the last byte of the window.
    pub open spec fn ceiling(self) -> int {
        self.start + self.limit
    }

    /// The address up to which memory is committed: the start of the window
    /// while nothing is.
    pub open spec fn committed(self) -> int {
        if self.end == NULL {
            self.start
        } else {
            self.end
        }
    }

    /// The window lies inside the region, the cursor inside the window, and
    /// the committed end agrees with the mode: a fixed heap is committed up to
    /// its ceiling, a growable one covers whatever it has handed out.
    pub open spec fn wf(self) -> bool {
        &&& EWRAM_START <= self.start
        &&& 0 <= self.limit
        &&& self.ceiling() <= EWRAM_START + EWRAM_SIZE
        &&& self.start <= self.cursor <= self.ceiling()
        &&& if self.growable {
            if self.end == NULL {
                self.cursor == self.start
            } else {
                self.cursor <= self.end
            }
        } else {
            self.end == self.ceiling()
        }
    }

    /// Where a block aligned to `align` would begin.
    pub open spec fn block_start(self, align: int) -> int {
        align_up(self.cursor, align)
    }

    /// One past the last byte of a block of `size` bytes aligned to `align`.
    pub open spec fn block_end(self, size: int, align: int) -> int {
        self.block_start(align) + size
    }

    /// The block would lie inside the window.
    pub open spec fn within_limit(self, size: int, align: int) -> bool {
        self.block_end(size, align) <= self.ceiling()
    }

    /// The block would lie inside the committed part of the window.
    pub open spec fn within_commitment(self, size: int, align: int) -> bool {
        self.block_end(size, align) <= self.end
    }

    /// The number of bytes by which the commitment must grow before the
    /// block can be granted. `None` when no growth is called for: the block
    /// is already covered, the heap is fixed, or the block would leave the
    /// window.
    pub open spec fn shortfall(self, size: int, align: int) -> Option<int> {
        if self.growable && self.within_limit(size, align) && !self.within_commitment(size, align) {
            Some(self.block_end(size, align) - self.committed())
        } else {
            None
        }
    }

    /// `grown` is a committed end that covers the block.
    pub open spec fn covers(self, size: int, align: int, grown: int) -> bool {
        grown != NULL && self.block_end(size, align) <= grown
    }

    /// The request is granted: the block lies inside the window, and either
    /// it is committed already or the heap is growable and `grown`, the
    /// answer to the growth request, covers it.
    pub open spec fn grants(self, size: int, align: int, grown: int) -> bool {
        &&& self.within_limit(size, align)
        &&& self.within_commitment(size, align) || (self.growable && self.covers(
            size,
            align,
            grown,
        ))
    }

    /// The outcome of a request for `size` bytes aligned to `align`, where
    /// `grown` is the answer to the growth request, if one is made. A granted
    /// block begins at the cursor rounded up, the cursor moves to its end, and
    /// a commitment that had to grow becomes `grown`. A refused request leaves
    /// the state as it was.
    pub open spec fn step(self, size: int, align: int, grown: int) -> Outcome {
        if self.grants(size, align, grown) {
            Outcome {
                heap: Heap {
                    end: if self.within_commitment(size, align) {
                        self.end
                    } else {
                        grown
                    },
                    cursor: self.block_end(size, align),
                    ..self
                },
                addr: self.block_start(align),
            }
        } else {
            Outcome { heap: self, addr: NULL as int }
        }
    }
}

/// One allocation request together with the answer that the growth
/// capability gives if it is asked.
pub struct Request {
    /// Number of bytes asked for.
    pub size: int,
    /// Alignment asked for.
    pub align: int,
    /// The committed end that the growth capability answers with.
    pub grown: int,
}

impl Request {
    /// The size is not negative and the alignment is positive.
    pub open spec fn wf(self) -> bool {
        0 <= self.size && 0 < self.align
    }
}

/// Every request of the sequence is well formed.
pub open spec fn all_wf(requests: Seq<Request>) -> bool {
    forall|i: int| 0 <= i < requests.len() ==> (#[trigger] requests[i]).wf()
}

impl Heap {
    /// The outcome of one request.
    pub open spec fn serve(self, request: Request) -> Outcome {
        self.step(request.size, request.align, request.grown)
    }

    /// The number of bytes by which a request moves the cursor: the padding
    /// in front of the block plus its size if the request is granted, nothing
    /// if it is refused.
    pub open spec fn footprint(self, request: Request) -> int {
        if self.grants(request.size, request.align, request.grown) {
            self.block_end(request.size, request.align) - self.cursor
        } else {
            0
        }
    }

    /// The state after serving the requests one after the other.
    pub open spec fn run(self, requests: Seq<Request>) -> Heap
        decreases requests.len(),
    {
        if requests.len() == 0 {
            self
        } else {
            self.run(requests.drop_last()).serve(requests.last()).heap
        }
    }

    /// The address that request `i` of the sequence is answered with.
    pub open spec fn answer(self, requests: Seq<Request>, i: int) -> int {
        self.run(requests.take(i)).serve(requests[i]).addr
    }

    /// The sum of the footprints of the requests, each taken in the state in
    /// which it is served.
    pub open spec fn used(self, requests: Seq<Request>) -> int
        decreases requests.len(),
    {
        if requests.len() == 0 {
            0
        } else {
            self.used(requests.drop_last()) + self.run(requests.drop_last()).footprint(
                requests.last(),
            )
        }
    }
}

/// A valid configuration gives a well-formed fresh state whose cursor is at
/// the start of the window. A fixed heap is committed up to the end of its
/// window, a growable one has nothing committed.
pub proof fn lemma_fresh_is_wf(growable: bool, offset: int, limit: int)
    requires
        0 <= offset,
        0 <= limit,
        offset + limit <= EWRAM_SIZE,
    ensures
        Heap::fresh(growable, offset, limit).wf(),
        Heap::fresh(growable, offset, limit).cursor == EWRAM_START + offset,
        !growable ==> Heap::fresh(growable, offset, limit).end == EWRAM_START + offset + limit,
        growable ==> Heap::fresh(growable, offset, limit).end == NULL,
{
}

/// A request keeps the state well formed, leaves the window and the mode as
/// they were, and never moves the cursor back.
pub proof fn lemma_step_preserves_wf(heap: Heap, size: int, align: int, grown: int)
    requires
        heap.wf(),
        0 <= size,
        0 < align,
    ensures
        heap.step(size, align, grown).heap.wf(),
        heap.step(size, align, grown).heap.growable == heap.growable,
        heap.step(size, align, grown).heap.start == heap.start,
        heap.step(size, align, grown).heap.limit == heap.limit,
        heap.cursor <= heap.step(size, align, grown).heap.cursor,
{
    lemma_align_up_is_aligned(heap.cursor, align);
}

/// A request is answered with `NULL` exactly when it is refused, and a
/// refused request changes nothing. A granted block is aligned, begins at or
/// after the old cursor, ends at the new cursor, and lies inside the window.
pub proof fn lemma_granted_block(heap: Heap, size: int, align: int, grown: int)
    requires
        heap.wf(),
        0 <= size,
        0 < align,
    ensures
        heap.step(size, align, grown).addr != NULL <==> heap.grants(size, align, grown),
        heap.step(size, align, grown).addr == NULL ==> heap.step(size, align, grown).heap == heap,
        heap.step(size, align, grown).addr != NULL ==> {
            let after = heap.step(size, align, grown);
            &&& after.addr % align == 0
            &&& heap.cursor <= after.addr < heap.cursor + align
            &&& after.addr + size == after.heap.cursor
            &&& heap.start <= after.addr
            &&& after.addr + size <= heap.ceiling()
        },
{
    lemma_align_up_is_aligned(heap.cursor, align);
}

/// A fixed heap refuses a request exactly when the block would end past the
/// end of the window, whatever the growth capability would answer.
pub proof fn lemma_fixed_exhaustion(heap: Heap, size: int, align: int, grown: int)
    requires
        heap.wf(),
        !heap.growable,
        0 <= size,
        0 < align,
    ensures
        heap.step(size, align, grown).addr == NULL <==> heap.block_end(size, align)
            > heap.ceiling(),
        heap.shortfall(size, align) is None,
{
    lemma_align_up_is_aligned(heap.cursor, align);
}

/// No heap, fixed or growable, grants a block that ends past the end of its
/// window.
pub proof fn lemma_limit_is_never_passed(heap: Heap, size: int, align: int, grown: int)
    requires
        heap.wf(),
        0 <= size,
        0 < align,
        heap.block_end(size, align) > heap.ceiling(),
    ensures
        heap.step(size, align, grown).addr == NULL,
        heap.step(size, align, grown).heap == heap,
        heap.shortfall(size, align) is None,
{
}

/// A request that fits the window of a growable heap but not its commitment
/// has a shortfall: the distance from the committed end to the end of the
/// block. If the answer to the growth request covers the block, the block is
/// granted and the answer becomes the committed end; otherwise the request is
/// refused and the state stays as it was.
pub proof fn lemma_growth_commit(heap: Heap, size: int, align: int, grown: int)
    requires
        heap.wf(),
        heap.growable,
        0 <= size,
        0 < align,
        heap.within_limit(size, align),
        !heap.within_commitment(size, align),
    ensures
        heap.shortfall(size, align) == Some(heap.block_end(size, align) - heap.committed()),
        0 <= heap.block_end(size, align) - heap.committed() <= heap.limit,
        heap.covers(size, align, grown) ==> {
            let after = heap.step(size, align, grown);
            &&& after.addr == heap.block_start(align)
            &&& after.addr != NULL
            &&& after.heap.cursor == heap.block_end(size, align)
            &&& after.heap.end == grown
        },
        !heap.covers(size, align, grown) ==> {
            let after = heap.step(size, align, grown);
            &&& after.addr == NULL
            &&& after.heap == heap
        },
{
    lemma_align_up_is_aligned(heap.cursor, align);
}

/// A request that the commitment already covers is granted without regard to
/// the growth capability, and the committed end stays as it was.
pub proof fn lemma_committed_needs_no_growth(heap: Heap, size: int, align: int, grown: int)
    requires
        heap.wf(),
        0 <= size,
        0 < align,
        heap.within_limit(size, align),
        heap.within_commitment(size, align),
    ensures
        heap.shortfall(size, align) is None,
        heap.step(size, align, grown).addr == heap.block_start(align),
        heap.step(size, align, grown).heap.cursor == heap.block_end(size, align),
        heap.step(size, align, grown).heap.end == heap.end,
{
}

/// Serving a sequence of requests keeps the state well formed and the window
/// and the mode as they were.
pub proof fn lemma_run_preserves_wf(heap: Heap, requests: Seq<Request>)
    requires
        heap.wf(),
        all_wf(requests),
    ensures
        heap.run(requests).wf(),
        heap.run(requests).growable == heap.growable,
        heap.run(requests).start == heap.start,
        heap.run(requests).limit == heap.limit,
        heap.cursor <= heap.run(requests).cursor,
    decreases requests.len(),
{
    if requests.len() > 0 {
        let last = requests.last();
        lemma_run_preserves_wf(heap, requests.drop_last());
        lemma_step_preserves_wf(
            heap.run(requests.drop_last()),
            last.size,
            last.align,
            last.grown,
        );
    }
}

/// The cursor after the first `j` requests is not below the cursor after the
/// first `i`, for `i <= j`.
pub proof fn lemma_cursor_never_moves_back(heap: Heap, requests: Seq<Request>, i: int, j: int)
    requires
        heap.wf(),
        all_wf(requests),
        0 <= i <= j <= requests.len(),
    ensures
        heap.run(requests.take(i)).cursor <= heap.run(requests.take(j)).cursor,
    decreases j - i,
{
    if i < j {
        lemma_cursor_never_moves_back(heap, requests, i, j - 1);
        let before = requests.take(j - 1);
        assert(requests.take(j).drop_last() == before);
        assert(requests.take(j).last() == requests[j - 1]);
        lemma_run_preserves_wf(heap, before);
        lemma_step_preserves_wf(
            heap.run(before),
            requests[j - 1].size,
            requests[j - 1].align,
            requests[j - 1].grown,
        );
    }
}

/// Of the blocks granted to a sequence of requests, each is aligned as asked
/// and lies inside the window, and an earlier one ends where a later one
/// begins or before: no two of them overlap.
pub proof fn lemma_blocks_never_overlap(heap: Heap, requests: Seq<Request>, i: int, j: int)
    requires
        heap.wf(),
        all_wf(requests),
        0 <= i < j < requests.len(),
        heap.answer(requests, i) != NULL,
        heap.answer(requests, j) != NULL,
    ensures
        heap.answer(requests, i) % requests[i].align == 0,
        heap.answer(requests, j) % requests[j].align == 0,
        heap.start <= heap.answer(requests, i),
        heap.answer(requests, i) + requests[i].size <= heap.answer(requests, j),
        heap.answer(requests, j) + requests[j].size <= heap.ceiling(),
{
    let at_i = heap.run(requests.take(i));
    let at_j = heap.run(requests.take(j));
    lemma_run_preserves_wf(heap, requests.take(i));
    lemma_run_preserves_wf(heap, requests.take(j));
    lemma_granted_block(at_i, requests[i].size, requests[i].align, requests[i].grown);
    lemma_granted_block(at_j, requests[j].size, requests[j].align, requests[j].grown);
    assert(requests.take(i + 1).drop_last() == requests.take(i));
    assert(requests.take(i + 1).last() == requests[i]);
    assert(heap.run(requests.take(i + 1)) == at_i.serve(requests[i]).heap);
    lemma_cursor_never_moves_back(heap, requests, i + 1, j);
}

/// The cursor after a sequence of requests is the cursor before it plus the
/// footprints of the requests, and what the granted requests use never
/// exceeds the window.
pub proof fn lemma_cursor_is_sum_of_footprints(heap: Heap, requests: Seq<Request>)
    requires
        heap.wf(),
        all_wf(requests),
    ensures
        heap.run(requests).cursor == heap.cursor + heap.used(requests),
        0 <= heap.used(requests),
        (heap.cursor - heap.start) + heap.used(requests) <= heap.limit,
    decreases requests.len(),
{
    lemma_run_preserves_wf(heap, requests);
    if requests.len() > 0 {
        let last = requests.last();
        lemma_cursor_is_sum_of_footprints(heap, requests.drop_last());
        lemma_run_preserves_wf(heap, requests.drop_last());
        lemma_step_preserves_wf(
            heap.run(requests.drop_last()),
            last.size,
            last.align,
            last.grown,
        );
    }
}

} // verus!
