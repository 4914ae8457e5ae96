//! A growable process heap with a size-class front end.
//!
//! Two layers. [`HeapCore`] recycles small blocks through one free list per size class, which
//! keeps heavy churn from fragmenting the memory below it. [`MultiRegionHeap`] is that memory: a
//! set of regions, each a first-fit allocator over one contiguous span. When every region is
//! full it asks its [`RegionSource`] for another span. A block goes back to the region whose
//! span holds its address.
//!
//! An address is a `usize` here. Writing through it, and handing a block back to the allocator
//! of its region, is left to the caller: both are outside what safe code can do.

use linked_list_allocator::Heap;
use vstd::prelude::*;

verus! {

/// Bytes of the first region, which exists before any system call.
pub const INITIAL_FLOOR: usize = 0x4_0000;

/// Largest number of regions, the first one counted.
pub const MAX_REGIONS: usize = 32;

/// Number of size classes.
pub const NUM_CLASSES: usize = 5;

/// Alignment of every block of a size class.
pub const CLASS_ALIGN: usize = 16;

/// Largest number of free blocks that one size class holds back.
pub const RETAIN_CAP: usize = 64;

/// What the first-fit allocator adds to a request: one list node.
pub const NODE_BYTES: usize = 16;

/// The unit in which memory is asked of the kernel.
pub const PAGE: usize = 4096;

/// The smallest span worth a pair of system calls.
pub const GROWTH_MIN: usize = 0x4_0000;

/// The outside crate's heap over one span.
#[verifier::external_type_specification]
#[verifier::external_body]
pub struct ExHeap(linked_list_allocator::Heap);

/// The blocks of `heap` that were handed out and not taken back: address and bytes asked for.
pub uninterp spec fn live_blocks(heap: Heap) -> Set<(int, int)>;

/// The addresses that `heap` hands blocks out of: the first, and the one behind the last.
pub uninterp spec fn heap_bounds(heap: Heap) -> (int, int);

/// The requests that `heap` has a large enough free place for: bytes and alignment.
pub uninterp spec fn room(heap: Heap) -> Set<(int, int)>;

/// Whether two blocks share no byte.
pub open spec fn apart(a: (int, int), b: (int, int)) -> bool {
    a.0 + a.1 <= b.0 || b.0 + b.1 <= a.0
}

/// Calls `linked_list_allocator::Heap::allocate_first_fit`.
///
/// Trusted: a block comes back just where a free place is large enough for the request, which is
/// decided by the heap's free list alone. The block lies inside the heap's bounds, starts at a
/// non-zero multiple of `align`, shares no byte with a block that is still out, and is out from
/// then on. Where none comes back (or no layout has that size and alignment), the heap is as it
/// was. Which of the free places is taken is not said.
///
/// The allocator steps over one list node and rounds up to the alignment with wrapping
/// arithmetic, so a heap that ends too close to the end of the address space for that is left
/// out.
#[verifier::external_body]
fn first_fit(heap: &mut Heap, size: usize, align: usize) -> (block: Option<usize>)
    requires
        heap_bounds(*old(heap)).1 + align + NODE_BYTES <= usize::MAX,
    ensures
        heap_bounds(*final(heap)) == heap_bounds(*old(heap)),
        block is Some <==> room(*old(heap)).contains((size as int, align as int)),
        match block {
            Some(address) => {
                &&& address != 0
                &&& align != 0
                &&& address % align == 0
                &&& heap_bounds(*old(heap)).0 <= address < heap_bounds(*old(heap)).1
                &&& address + size <= heap_bounds(*old(heap)).1
                &&& !live_blocks(*old(heap)).contains((address as int, size as int))
                &&& live_blocks(*final(heap)) == live_blocks(*old(heap)).insert(
                    (address as int, size as int),
                )
                &&& forall|b: (int, int)| #[trigger]
                    live_blocks(*old(heap)).contains(b) ==> apart(b, (address as int, size as int))
            },
            None => *final(heap) == *old(heap),
        },
{
    let layout = core::alloc::Layout::from_size_align(size, align).ok()?;
    let block = heap.allocate_first_fit(layout).ok()?;
    Some(block.addr().get())
}

/// What a caller asks for: how many bytes, at which alignment.
#[derive(Clone, Copy, Debug, PartialEq, Eq, Structural)]
pub struct BlockLayout {
    pub size: usize,
    pub align: usize,
}

/// One contiguous span and the allocator that manages it.
pub struct Span {
    pub heap: Heap,
    pub base: usize,
    pub len: usize,
}

impl Span {
    /// The allocator stays inside the span, and no two blocks that are out share a byte.
    pub open spec fn wf(&self) -> bool {
        &&& self.base + self.len <= usize::MAX
        &&& self.base <= heap_bounds(self.heap).0
        &&& heap_bounds(self.heap).1 <= self.base + self.len
        &&& forall|b: (int, int)| #[trigger]
            live_blocks(self.heap).contains(b) ==> self.base <= b.0 < self.base + self.len && b.0
                + b.1 <= self.base + self.len
        &&& forall|a: (int, int), b: (int, int)|
            #![trigger live_blocks(self.heap).contains(a), live_blocks(self.heap).contains(b)]
            live_blocks(self.heap).contains(a) && live_blocks(self.heap).contains(b) && a != b
                ==> apart(a, b)
    }

    pub open spec fn holds(&self, address: int) -> bool {
        self.base <= address < self.base + self.len
    }

    /// Whether `address` lies in this span.
    pub fn contains(&self, address: usize) -> (inside: bool)
        requires
            self.base + self.len <= usize::MAX,
        ensures
            inside == self.holds(address as int),
    {
        address >= self.base && address < self.base + self.len
    }
}

/// A source of fresh spans.
pub trait RegionSource: Sized {
    /// Whether a source that held `self` may answer a request for `min` bytes with `span` and
    /// hold `after`. A source that does not say may answer in any way.
    open spec fn grown(self, min: usize, after: Self, span: Option<Span>) -> bool {
        true
    }

    /// A span of at least `min` bytes that nobody else uses, from which nothing has been handed
    /// out, or `None` when no more memory can be had. A span is never given back.
    fn grow(&mut self, min: usize) -> (span: Option<Span>)
        ensures
            old(self).grown(min, *final(self), span),
            span matches Some(s) ==> s.wf() && live_blocks(s.heap) == Set::<(int, int)>::empty(),
    ;
}

/// A heap of one or more regions that grows on demand.
pub struct MultiRegionHeap<S: RegionSource> {
    pub regions: Regions,
    pub source: S,
}

/// The spans of a heap, in the order in which they were taken in. They are kept in place: a heap
/// that serves its process's allocations cannot allocate for itself.
pub struct Regions {
    pub slots: [Option<Span>; 32],
    pub len: usize,
}

impl View for Regions {
    type V = Seq<Span>;

    open spec fn view(&self) -> Seq<Span> {
        Seq::new(self.len as nat, |i: int| self.slots@[i]->0)
    }
}

impl Regions {
    /// The first `len` slots are filled.
    pub open spec fn wf(&self) -> bool {
        &&& self.len <= MAX_REGIONS
        &&& forall|i: int| 0 <= i < self.len ==> #[trigger] self.slots@[i] is Some
    }

    /// One span.
    pub fn of(first: Span) -> (r: Regions)
        ensures
            r.wf(),
            r@ == seq![first],
    {
        let slots: [Option<Span>; 32] = [
            Some(first),
            None,
            None,
            None,
            None,
            None,
            None,
            None,
            None,
            None,
            None,
            None,
            None,
            None,
            None,
            None,
            None,
            None,
            None,
            None,
            None,
            None,
            None,
            None,
            None,
            None,
            None,
            None,
            None,
            None,
            None,
            None,
        ];
        let r = Regions { slots, len: 1 };
        assert(r@ =~= seq![first]);
        r
    }

    /// Adds a span behind the others.
    pub fn push(&mut self, span: Span)
        requires
            old(self).wf(),
            old(self).len < MAX_REGIONS,
        ensures
            final(self).wf(),
            final(self)@ == old(self)@.push(span),
    {
        self.slots[self.len] = Some(span);
        self.len = self.len + 1;
        assert(self@ =~= old(self)@.push(span));
    }

    /// Whether `address` lies in span number `i`.
    pub fn holds(&self, i: usize, address: usize) -> (inside: bool)
        requires
            self.wf(),
            i < self.len,
            self@[i as int].base + self@[i as int].len <= usize::MAX,
        ensures
            inside == self@[i as int].holds(address as int),
    {
        match &self.slots[i] {
            Some(span) => span.contains(address),
            None => false,
        }
    }

    /// Asks the allocator of span number `i` for a block.
    fn fit(&mut self, i: usize, layout: BlockLayout) -> (block: Option<usize>)
        requires
            old(self).wf(),
            i < old(self).len,
            regions_wf(old(self)@),
        ensures
            final(self).wf(),
            block is Some <==> has_room(old(self)@[i as int], layout),
            match block {
                Some(address) => block_taken(
                    old(self)@,
                    final(self)@,
                    i as int,
                    address,
                    layout,
                ) && regions_wf(final(self)@),
                None => final(self)@ == old(self)@,
            },
    {
        let ghost before = self@;
        assert(self.slots@[i as int] is Some);
        assert(before[i as int].wf());
        match self.slots[i].take() {
            None => None,
            Some(mut span) => {
                let above: usize = usize::MAX - (span.base + span.len);
                let answer = if above >= NODE_BYTES && layout.align <= above - NODE_BYTES {
                    first_fit(&mut span.heap, layout.size, layout.align)
                } else {
                    None
                };
                self.slots[i] = Some(span);
                match answer {
                    Some(address) => {
                        proof {
                            assert(block_taken(before, self@, i as int, address, layout));
                            lemma_taken_keeps_order(before, self@, i as int, address, layout);
                        }
                    },
                    None => {
                        assert(self@ =~= before);
                    },
                }
                answer
            },
        }
    }
}

/// The bytes that a new region needs for one request of this layout: the request itself, its
/// alignment, and a node of the allocator's list.
pub open spec fn span_needed(layout: BlockLayout) -> int {
    let bytes = layout.size + layout.align + NODE_BYTES;
    if bytes <= usize::MAX {
        bytes
    } else {
        usize::MAX as int
    }
}

/// Computes [`span_needed`].
pub fn needed_span(layout: BlockLayout) -> (need: usize)
    ensures
        need == span_needed(layout),
{
    layout.size.saturating_add(layout.align).saturating_add(NODE_BYTES)
}

/// Whether a span is taken in as a new region: it has an address, and it is large enough.
pub open spec fn admissible(base: int, len: int, need: int) -> bool {
    base != 0 && len >= need
}

/// The regions around number `i` are the same, and region `i` has the block out.
pub open spec fn block_taken(
    before: Seq<Span>,
    after: Seq<Span>,
    i: int,
    address: usize,
    layout: BlockLayout,
) -> bool {
    &&& 0 <= i < before.len()
    &&& after.len() == before.len()
    &&& after[i].base == before[i].base
    &&& after[i].len == before[i].len
    &&& forall|j: int| 0 <= j < before.len() && j != i ==> #[trigger] after[j] == before[j]
    &&& address != 0
    &&& layout.align != 0
    &&& address % layout.align == 0
    &&& before[i].holds(address as int)
    &&& address + layout.size <= before[i].base + before[i].len
    &&& !live_blocks(before[i].heap).contains((address as int, layout.size as int))
    &&& live_blocks(after[i].heap) == live_blocks(before[i].heap).insert(
        (address as int, layout.size as int),
    )
}

/// `span` was taken in as the last region.
pub open spec fn region_added(before: Seq<Span>, after: Seq<Span>, need: int) -> bool {
    &&& before.len() < MAX_REGIONS
    &&& after.len() == before.len() + 1
    &&& after.drop_last() == before
    &&& admissible(after.last().base as int, after.last().len as int, need)
    &&& after.last().wf()
    &&& live_blocks(after.last().heap) == Set::<(int, int)>::empty()
}

/// The number of the first region whose span holds `address`.
pub open spec fn owner_of(regions: Seq<Span>, address: int) -> Option<int>
    decreases regions.len(),
{
    if regions.len() == 0 {
        None
    } else {
        match owner_of(regions.drop_last(), address) {
            Some(i) => Some(i),
            None => if regions.last().holds(address) {
                Some(regions.len() - 1)
            } else {
                None
            },
        }
    }
}

/// No address lies in two spans.
pub open spec fn spans_apart(regions: Seq<Span>) -> bool {
    forall|i: int, j: int, address: int|
        #![trigger regions[i].holds(address), regions[j].holds(address)]
        0 <= i < regions.len() && 0 <= j < regions.len() && regions[i].holds(address)
            && regions[j].holds(address) ==> i == j
}

/// Every region is in order, and there is at least one and not too many.
pub open spec fn regions_wf(regions: Seq<Span>) -> bool {
    &&& 1 <= regions.len() <= MAX_REGIONS
    &&& forall|i: int| 0 <= i < regions.len() ==> #[trigger] regions[i].wf()
}

/// Whether a region's allocator has room for a request. A region that ends too close to the end
/// of the address space to round an address up to the alignment has none.
pub open spec fn has_room(region: Span, layout: BlockLayout) -> bool {
    &&& region.base + region.len + layout.align + NODE_BYTES <= usize::MAX
    &&& room(region.heap).contains((layout.size as int, layout.align as int))
}

/// Region `i` is the first that has room.
pub open spec fn first_with_room(regions: Seq<Span>, layout: BlockLayout, i: int) -> bool {
    &&& 0 <= i < regions.len()
    &&& has_room(regions[i], layout)
    &&& forall|j: int| 0 <= j < i ==> !has_room(#[trigger] regions[j], layout)
}

pub open spec fn none_has_room(regions: Seq<Span>, layout: BlockLayout) -> bool {
    forall|j: int| 0 <= j < regions.len() ==> !has_room(#[trigger] regions[j], layout)
}

/// The regions after the source answered with `span`.
pub open spec fn grown_by(regions: Seq<Span>, span: Option<Span>, need: int) -> Seq<Span> {
    match span {
        Some(s) => if admissible(s.base as int, s.len as int, need) {
            regions.push(s)
        } else {
            regions
        },
        None => regions,
    }
}

/// What an allocation does where no region had room and the source answered with `span`.
pub open spec fn served_by_growth(
    before: Seq<Span>,
    after: Seq<Span>,
    span: Option<Span>,
    block: Option<usize>,
    layout: BlockLayout,
) -> bool {
    let grown = grown_by(before, span, span_needed(layout));
    if grown.len() > before.len() && has_room(grown.last(), layout) {
        block is Some && block_taken(grown, after, before.len() as int, block->0, layout)
    } else {
        block is None && after == grown
    }
}

impl<S: RegionSource> MultiRegionHeap<S> {
    pub open spec fn wf(&self) -> bool {
        self.regions.wf() && regions_wf(self.regions@)
    }

    /// The source is asked for a span that fits `layout`; one that is large enough and has an
    /// address becomes the last region, and `index` is its number.
    pub open spec fn asks(self, after: Self, index: Option<usize>, layout: BlockLayout) -> bool {
        exists|span: Option<Span>| #[trigger]
            self.source.grown(span_needed(layout) as usize, after.source, span) && after.regions@
                == grown_by(self.regions@, span, span_needed(layout)) && index == (
            if after.regions@.len() > self.regions@.len() {
                Some(self.regions.len)
            } else {
                None
            })
    }

    /// What an allocation does to the heap and what it returns. A region that has room serves the
    /// request; the first such region does. Where none has and there may be more regions, the
    /// source is asked once, and a span that is taken in serves the request if it has room.
    pub open spec fn serves(self, after: Self, block: Option<usize>, layout: BlockLayout) -> bool {
        if !none_has_room(self.regions@, layout) {
            after.source == self.source && block is Some && exists|i: int|
                first_with_room(self.regions@, layout, i) && #[trigger] block_taken(
                    self.regions@,
                    after.regions@,
                    i,
                    block->0,
                    layout,
                )
        } else if self.regions@.len() >= MAX_REGIONS {
            after.source == self.source && after.regions@ == self.regions@ && block is None
        } else {
            exists|span: Option<Span>| #[trigger]
                self.source.grown(span_needed(layout) as usize, after.source, span)
                    && served_by_growth(self.regions@, after.regions@, span, block, layout)
        }
    }

    /// A heap of one region, which grows through `source`.
    pub fn new(floor: Span, source: S) -> (heap: Self)
        requires
            floor.wf(),
        ensures
            heap.wf(),
            heap.regions@ == seq![floor],
            heap.source == source,
    {
        MultiRegionHeap { regions: Regions::of(floor), source }
    }

    /// Tries the regions there are, in order.
    ///
    /// The block comes out of the first region whose allocator has room for it. Where none has,
    /// nothing changed.
    pub fn alloc_existing(&mut self, layout: BlockLayout) -> (block: Option<usize>)
        requires
            old(self).wf(),
        ensures
            final(self).wf(),
            final(self).source == old(self).source,
            match block {
                Some(address) => exists|i: int|
                    first_with_room(old(self).regions@, layout, i) && #[trigger] block_taken(
                        old(self).regions@,
                        final(self).regions@,
                        i,
                        address,
                        layout,
                    ),
                None => none_has_room(old(self).regions@, layout) && final(self).regions@ == old(
                    self,
                ).regions@,
            },
    {
        let mut i: usize = 0;
        while i < self.regions.len
            invariant
                i <= self.regions.len,
                self.regions@ == old(self).regions@,
                self.source == old(self).source,
                self.wf(),
                forall|j: int| 0 <= j < i ==> !has_room(#[trigger] self.regions@[j], layout),
            decreases self.regions.len - i,
        {
            let answer = self.regions.fit(i, layout);
            if answer.is_some() {
                assert(first_with_room(old(self).regions@, layout, i as int));
                assert(block_taken(
                    old(self).regions@,
                    self.regions@,
                    i as int,
                    answer->0,
                    layout,
                ));
                return answer;
            }
            i += 1;
        }
        None
    }

    /// Asks the source for a span that fits `layout` and takes it in as a new region, unless
    /// there are too many already. A span that is too small, or that has no address, is not
    /// taken in.
    pub fn grow_for(&mut self, layout: BlockLayout) -> (index: Option<usize>)
        requires
            old(self).wf(),
        ensures
            final(self).wf(),
            old(self).regions@.len() >= MAX_REGIONS ==> index is None && *final(self) == *old(self),
            old(self).regions@.len() < MAX_REGIONS ==> old(self).asks(*final(self), index, layout),
            index is Some ==> region_added(
                old(self).regions@,
                final(self).regions@,
                span_needed(layout),
            ),
    {
        if self.regions.len >= MAX_REGIONS {
            return None;
        }
        let need: usize = needed_span(layout);
        let answer = self.source.grow(need);
        let ghost asked = answer;
        assert(old(self).source.grown(span_needed(layout) as usize, self.source, asked));
        match answer {
            None => None,
            Some(span) => {
                if span.base == 0 || span.len < need {
                    return None;
                }
                let index: usize = self.regions.len;
                self.regions.push(span);
                assert(self.regions@.drop_last() =~= old(self).regions@);
                assert(self.regions@ == grown_by(old(self).regions@, asked, span_needed(layout)));
                assert(old(self).source.grown(span_needed(layout) as usize, self.source, asked));
                Some(index)
            },
        }
    }

    /// A block for `layout`, out of the regions there are or out of one more.
    ///
    /// A heap that cannot grow answers `None` once its regions are full. A region that was taken
    /// in stays, also where its allocator still has no room.
    pub fn allocate(&mut self, layout: BlockLayout) -> (block: Option<usize>)
        requires
            old(self).wf(),
        ensures
            final(self).wf(),
            served(old(self).regions@, final(self).regions@, block, layout),
            old(self).serves(*final(self), block, layout),
    {
        let existing = self.alloc_existing(layout);
        if existing.is_some() {
            return existing;
        }
        let ghost first = *self;
        let answer = self.grow_for(layout);
        let ghost grown = *self;
        let ghost span = choose|span: Option<Span>| #[trigger]
            first.source.grown(span_needed(layout) as usize, grown.source, span)
                && grown.regions@ == grown_by(first.regions@, span, span_needed(layout));
        match answer {
            None => {
                assert(first.regions@.len() < MAX_REGIONS ==> served_by_growth(
                    first.regions@,
                    self.regions@,
                    span,
                    None,
                    layout,
                ));
                None
            },
            Some(index) => {
                let block = self.regions.fit(index, layout);
                assert(grown.regions@.last() == grown.regions@[index as int]);
                assert(served_by_growth(first.regions@, self.regions@, span, block, layout));
                assert(first.source.grown(span_needed(layout) as usize, self.source, span));
                block
            },
        }
    }

    /// The number of the region that a block at `address` goes back to.
    pub fn owner(&self, address: usize) -> (index: Option<usize>)
        requires
            self.wf(),
        ensures
            match index {
                Some(i) => owner_of(self.regions@, address as int) == Some(i as int),
                None => owner_of(self.regions@, address as int) is None,
            },
    {
        let mut i: usize = 0;
        while i < self.regions.len
            invariant
                i <= self.regions.len,
                self.wf(),
                owner_of(self.regions@.take(i as int), address as int) is None,
            decreases self.regions.len - i,
        {
            assert(self.regions@.take(i + 1).drop_last() =~= self.regions@.take(i as int));
            assert(self.regions@[i as int].wf());
            if self.regions.holds(i, address) {
                proof {
                    lemma_owner_stays(self.regions@, i + 1, address as int);
                }
                return Some(i);
            }
            i += 1;
        }
        assert(self.regions@.take(i as int) =~= self.regions@);
        None
    }

    /// The number of regions.
    pub fn region_count(&self) -> (count: usize)
        ensures
            count == self.regions@.len(),
    {
        self.regions.len
    }
}

/// What an allocation does to the regions: the block comes out of the first that has room, or
/// none has, one region was added and the block, if there is one, comes out of that.
pub open spec fn served(
    before: Seq<Span>,
    after: Seq<Span>,
    block: Option<usize>,
    layout: BlockLayout,
) -> bool {
    match block {
        Some(address) => {
            ||| exists|i: int|
                first_with_room(before, layout, i) && #[trigger] block_taken(
                    before,
                    after,
                    i,
                    address,
                    layout,
                )
            ||| none_has_room(before, layout) && exists|grown: Seq<Span>|
                #[trigger] region_added(before, grown, span_needed(layout)) && has_room(
                    grown.last(),
                    layout,
                ) && block_taken(grown, after, before.len() as int, address, layout)
        },
        None => none_has_room(before, layout) && (after == before || region_added(
            before,
            after,
            span_needed(layout),
        ) && !has_room(after.last(), layout)),
    }
}

proof fn lemma_taken_keeps_order(
    before: Seq<Span>,
    after: Seq<Span>,
    i: int,
    address: usize,
    layout: BlockLayout,
)
    requires
        regions_wf(before),
        block_taken(before, after, i, address, layout),
        heap_bounds(after[i].heap) == heap_bounds(before[i].heap),
        forall|b: (int, int)| #[trigger]
            live_blocks(before[i].heap).contains(b) ==> apart(
                b,
                (address as int, layout.size as int),
            ),
    ensures
        regions_wf(after),
{
    assert(after[i].wf()) by {
        assert(before[i].wf());
    }
    assert forall|j: int| 0 <= j < after.len() implies #[trigger] after[j].wf() by {
        if j != i {
            assert(after[j] == before[j]);
            assert(before[j].wf());
        }
    }
}

proof fn lemma_owner_stays(regions: Seq<Span>, n: int, address: int)
    requires
        0 <= n <= regions.len(),
        owner_of(regions.take(n), address) is Some,
    ensures
        owner_of(regions, address) == owner_of(regions.take(n), address),
    decreases regions.len(),
{
    if n == regions.len() {
        assert(regions.take(n) =~= regions);
    } else {
        assert(regions.drop_last().take(n) =~= regions.take(n));
        lemma_owner_stays(regions.drop_last(), n, address);
    }
}

proof fn lemma_owner_is_first(regions: Seq<Span>, i: int, address: int)
    requires
        0 <= i < regions.len(),
        spans_apart(regions),
        regions[i].holds(address),
    ensures
        owner_of(regions, address) == Some(i),
    decreases regions.len(),
{
    if i == regions.len() - 1 {
        lemma_no_owner(regions.drop_last(), regions.last(), address, regions);
    } else {
        let rest = regions.drop_last();
        assert forall|a: int, b: int, x: int|
            #![trigger rest[a].holds(x), rest[b].holds(x)]
            0 <= a < rest.len() && 0 <= b < rest.len() && rest[a].holds(x)
                && rest[b].holds(x) implies a == b by {
            assert(regions[a].holds(x) && regions[b].holds(x));
        }
        assert(rest[i].holds(address));
        lemma_owner_is_first(rest, i, address);
    }
}

proof fn lemma_no_owner(front: Seq<Span>, last: Span, address: int, all: Seq<Span>)
    requires
        front.len() < all.len(),
        forall|j: int| 0 <= j < front.len() ==> #[trigger] front[j] == all[j],
        spans_apart(all),
        all.last() == last,
        last.holds(address),
    ensures
        owner_of(front, address) is None,
    decreases front.len(),
{
    if front.len() > 0 {
        let rest = front.drop_last();
        assert forall|j: int| 0 <= j < rest.len() implies #[trigger] rest[j] == all[j] by {
            assert(front[j] == all[j]);
        }
        lemma_no_owner(rest, last, address, all);
        if front.last().holds(address) {
            assert(front[front.len() - 1] == all[front.len() - 1]);
            assert(all[front.len() - 1].holds(address) && all[all.len() - 1].holds(address));
        }
    }
}

/// A block goes back where it came from: the owner of its address is the region that has it out,
/// provided no two spans share an address.
pub proof fn blocks_route_home(regions: Seq<Span>, i: int, block: (int, int))
    requires
        regions_wf(regions),
        spans_apart(regions),
        0 <= i < regions.len(),
        live_blocks(regions[i].heap).contains(block),
    ensures
        owner_of(regions, block.0) == Some(i),
{
    assert(regions[i].wf());
    lemma_owner_is_first(regions, i, block.0);
}

/// Two blocks that are out share no byte, whichever regions they come from.
pub proof fn blocks_do_not_overlap(regions: Seq<Span>, i: int, a: (int, int), j: int, b: (int, int))
    requires
        regions_wf(regions),
        spans_apart(regions),
        0 <= i < regions.len(),
        0 <= j < regions.len(),
        live_blocks(regions[i].heap).contains(a),
        live_blocks(regions[j].heap).contains(b),
        i != j || a != b,
        a.1 > 0,
        b.1 > 0,
    ensures
        apart(a, b),
{
    assert(regions[i].wf() && regions[j].wf());
    if i != j && !apart(a, b) {
        let shared = if a.0 <= b.0 {
            b.0
        } else {
            a.0
        };
        assert(regions[i].holds(shared) && regions[j].holds(shared));
    }
}

/// The bytes of a block of size class `k`.
pub open spec fn class_size(k: int) -> usize {
    if k == 0 {
        16
    } else if k == 1 {
        32
    } else if k == 2 {
        64
    } else if k == 3 {
        128
    } else {
        256
    }
}

/// The smallest size class that fits `layout`: none for a request that is larger than the
/// largest class, or aligned more strictly than a class block is.
pub open spec fn class_of(layout: BlockLayout) -> Option<int> {
    if layout.align > CLASS_ALIGN || layout.size > class_size(4) {
        None
    } else if layout.size <= class_size(0) {
        Some(0)
    } else if layout.size <= class_size(1) {
        Some(1)
    } else if layout.size <= class_size(2) {
        Some(2)
    } else if layout.size <= class_size(3) {
        Some(3)
    } else {
        Some(4)
    }
}

/// Computes [`class_of`].
pub fn class_index(layout: BlockLayout) -> (index: Option<usize>)
    ensures
        match index {
            Some(k) => k < NUM_CLASSES && class_of(layout) == Some(k as int),
            None => class_of(layout) is None,
        },
{
    if layout.align > CLASS_ALIGN {
        return None;
    }
    let mut k: usize = 0;
    while k < NUM_CLASSES
        invariant
            k <= NUM_CLASSES,
            layout.align <= CLASS_ALIGN,
            k > 0 ==> layout.size > class_size(k - 1),
        decreases NUM_CLASSES - k,
    {
        if layout.size <= class_layout(k).size {
            return Some(k);
        }
        k += 1;
    }
    None
}

/// The layout with which the blocks of a class are carved and given back.
pub fn class_layout(index: usize) -> (layout: BlockLayout)
    requires
        index < NUM_CLASSES,
    ensures
        layout == (BlockLayout { size: class_size(index as int), align: CLASS_ALIGN }),
{
    let size: usize = if index == 0 {
        16
    } else if index == 1 {
        32
    } else if index == 2 {
        64
    } else if index == 3 {
        128
    } else {
        256
    };
    BlockLayout { size, align: CLASS_ALIGN }
}

/// The layout of the block that serves a request: that of its class, or the request's own.
pub open spec fn block_layout(layout: BlockLayout) -> BlockLayout {
    match class_of(layout) {
        Some(k) => BlockLayout { size: class_size(k), align: CLASS_ALIGN },
        None => layout,
    }
}

/// The free blocks that one size class holds back. The last one in is the first one out.
#[derive(Clone, Copy)]
pub struct FreeList {
    pub blocks: [usize; 64],
    pub len: usize,
}

impl View for FreeList {
    type V = Seq<usize>;

    open spec fn view(&self) -> Seq<usize> {
        self.blocks@.take(self.len as int)
    }
}

impl FreeList {
    /// The list holds back no more than it may.
    pub open spec fn wf(&self) -> bool {
        self.len <= RETAIN_CAP
    }

    pub fn new() -> (list: Self)
        ensures
            list.wf(),
            list@ == Seq::<usize>::empty(),
    {
        let list = FreeList { blocks: [0usize; 64], len: 0 };
        assert(list@ =~= Seq::<usize>::empty());
        list
    }

    /// Takes out the block that was put in last.
    pub fn pop(&mut self) -> (block: Option<usize>)
        requires
            old(self).wf(),
        ensures
            final(self).wf(),
            old(self)@.len() == 0 ==> block is None && final(self)@ == old(self)@,
            old(self)@.len() > 0 ==> block == Some(old(self)@.last()) && final(self)@ == old(
                self,
            )@.drop_last(),
    {
        if self.len == 0 {
            return None;
        }
        self.len = self.len - 1;
        assert(self@ =~= old(self)@.drop_last());
        Some(self.blocks[self.len])
    }

    /// Holds `block` back, unless the list is full.
    pub fn push(&mut self, block: usize) -> (kept: bool)
        requires
            old(self).wf(),
        ensures
            final(self).wf(),
            kept == (old(self)@.len() < RETAIN_CAP),
            final(self)@ == (if kept {
                old(self)@.push(block)
            } else {
                old(self)@
            }),
    {
        if self.len >= RETAIN_CAP {
            return false;
        }
        self.blocks[self.len] = block;
        self.len = self.len + 1;
        assert(self@ =~= old(self)@.push(block));
        true
    }
}

/// Where a block goes that its user gives back.
#[derive(Clone, Copy, Debug, PartialEq, Eq)]
pub enum Release {
    /// Its size class holds it back.
    Retained,
    /// It goes back to the allocator of the region, with this layout. A block that lies in no
    /// region is dropped.
    Returned { layout: BlockLayout, region: Option<usize> },
}

/// Small blocks recycle through one free list per size class; the rest comes from the regions.
pub struct HeapCore<S: RegionSource> {
    pub classes: [FreeList; 5],
    pub backing: MultiRegionHeap<S>,
}

/// What an allocation does to the free lists and the regions.
pub open spec fn allocated(
    lists: Seq<Seq<usize>>,
    regions: Seq<Span>,
    lists_after: Seq<Seq<usize>>,
    regions_after: Seq<Span>,
    block: Option<usize>,
    layout: BlockLayout,
) -> bool {
    if class_of(layout) is Some && lists[class_of(layout)->0].len() > 0 {
        let k = class_of(layout)->0;
        &&& block == Some(lists[k].last())
        &&& lists_after == lists.update(k, lists[k].drop_last())
        &&& regions_after == regions
    } else {
        lists_after == lists && served(regions, regions_after, block, block_layout(layout))
    }
}

/// What giving a block back does to the free lists, and where the block goes.
pub open spec fn released(
    lists: Seq<Seq<usize>>,
    regions: Seq<Span>,
    address: usize,
    layout: BlockLayout,
) -> (Seq<Seq<usize>>, Option<(BlockLayout, Option<int>)>) {
    let home = Some((block_layout(layout), owner_of(regions, address as int)));
    match class_of(layout) {
        Some(k) => if lists[k].len() < RETAIN_CAP {
            (lists.update(k, lists[k].push(address)), None)
        } else {
            (lists, home)
        },
        None => (lists, home),
    }
}

impl<S: RegionSource> HeapCore<S> {
    /// The free blocks of each size class.
    pub open spec fn lists(&self) -> Seq<Seq<usize>> {
        Seq::new(self.classes@.len(), |k: int| self.classes@[k]@)
    }

    /// Whether a request is served by a block that its class holds back.
    pub open spec fn recycles(&self, layout: BlockLayout) -> bool {
        class_of(layout) is Some && self.lists()[class_of(layout)->0].len() > 0
    }

    /// No class holds back more than it may.
    pub open spec fn wf(&self) -> bool {
        &&& self.backing.wf()
        &&& forall|k: int| 0 <= k < NUM_CLASSES ==> #[trigger] self.classes@[k].wf()
    }

    /// A heap over one region, with nothing held back.
    pub fn new(floor: Span, source: S) -> (core: Self)
        requires
            floor.wf(),
        ensures
            core.wf(),
            core.lists() == Seq::new(NUM_CLASSES as nat, |k: int| Seq::<usize>::empty()),
            core.backing.regions@ == seq![floor],
            core.backing.source == source,
    {
        let classes: [FreeList; 5] = [
            FreeList::new(),
            FreeList::new(),
            FreeList::new(),
            FreeList::new(),
            FreeList::new(),
        ];
        HeapCore { classes, backing: MultiRegionHeap::new(floor, source) }
    }

    /// A block for `layout`: a recycled one of its class where there is one, else a fresh one
    /// that is large enough for the whole class.
    pub fn allocate(&mut self, layout: BlockLayout) -> (block: Option<usize>)
        requires
            old(self).wf(),
        ensures
            final(self).wf(),
            allocated(
                old(self).lists(),
                old(self).backing.regions@,
                final(self).lists(),
                final(self).backing.regions@,
                block,
                layout,
            ),
            if old(self).recycles(layout) {
                final(self).backing == old(self).backing
            } else {
                old(self).backing.serves(final(self).backing, block, block_layout(layout))
            },
    {
        match class_index(layout) {
            Some(k) => {
                let ghost before = self.lists();
                let recycled = self.classes[k].pop();
                assert(self.lists() =~= before.update(
                    k as int,
                    if before[k as int].len() > 0 {
                        before[k as int].drop_last()
                    } else {
                        before[k as int]
                    },
                ));
                if recycled.is_some() {
                    return recycled;
                }
                assert(self.lists() =~= before);
                self.backing.allocate(class_layout(k))
            },
            None => self.backing.allocate(layout),
        }
    }

    /// Takes a block back: into the free list of its class, or on its way to its region.
    pub fn release(&mut self, address: usize, layout: BlockLayout) -> (outcome: Release)
        requires
            old(self).wf(),
        ensures
            final(self).wf(),
            final(self).backing == old(self).backing,
            final(self).lists() == released(
                old(self).lists(),
                old(self).backing.regions@,
                address,
                layout,
            ).0,
            match released(old(self).lists(), old(self).backing.regions@, address, layout).1 {
                None => outcome == Release::Retained,
                Some((block, owner)) => {
                    &&& outcome is Returned
                    &&& outcome->layout == block
                    &&& match outcome->region {
                        Some(i) => owner == Some(i as int),
                        None => owner is None,
                    }
                },
            },
    {
        match class_index(layout) {
            Some(k) => {
                let ghost before = self.lists();
                let kept = self.classes[k].push(address);
                if kept {
                    assert(self.lists() =~= before.update(k as int, before[k as int].push(address)));
                    return Release::Retained;
                }
                assert(self.lists() =~= before);
                Release::Returned { layout: class_layout(k), region: self.backing.owner(address) }
            },
            None => Release::Returned { layout, region: self.backing.owner(address) },
        }
    }

    /// The number of free blocks that a class holds back.
    pub fn cache_len(&self, index: usize) -> (len: usize)
        requires
            self.wf(),
            index < NUM_CLASSES,
        ensures
            len == self.lists()[index as int].len(),
    {
        assert(self.classes@[index as int].wf());
        self.classes[index].len
    }

    /// The number of regions.
    pub fn region_count(&self) -> (count: usize)
        ensures
            count == self.backing.regions@.len(),
    {
        self.backing.region_count()
    }
}

/// The bytes to ask of the kernel for a span of `min`: whole pages, and not too few of them.
pub open spec fn growth_bytes(min: int) -> Option<int> {
    let least = if min < GROWTH_MIN {
        GROWTH_MIN as int
    } else {
        min
    };
    if least + PAGE - 1 > usize::MAX {
        None
    } else {
        Some((least + PAGE - 1) / (PAGE as int) * PAGE)
    }
}

/// Computes [`growth_bytes`].
pub fn growth_size(min: usize) -> (want: Option<usize>)
    ensures
        match want {
            Some(w) => growth_bytes(min as int) == Some(w as int),
            None => growth_bytes(min as int) is None,
        },
{
    let least: usize = if min < GROWTH_MIN {
        GROWTH_MIN
    } else {
        min
    };
    match least.checked_add(PAGE - 1) {
        None => None,
        Some(padded) => Some(padded / PAGE * PAGE),
    }
}

/// Block number `n` of class `k` in the free lists.
pub open spec fn held_back(lists: Seq<Seq<usize>>, k: int, n: int) -> (int, int) {
    (lists[k][n] as int, class_size(k) as int)
}

/// Whether a class holds `block` back.
pub open spec fn is_held_back(lists: Seq<Seq<usize>>, block: (int, int)) -> bool {
    exists|k: int, n: int|
        0 <= k < lists.len() && 0 <= n < lists[k].len() && #[trigger] held_back(lists, k, n)
            == block
}

/// Whether a region has `block` out.
pub open spec fn is_live(regions: Seq<Span>, block: (int, int)) -> bool {
    exists|i: int|
        0 <= i < regions.len() && #[trigger] live_blocks(regions[i].heap).contains(block)
}

/// Whether a user holds `block`: a region has it out, and no class holds it back.
pub open spec fn is_handed_out(
    lists: Seq<Seq<usize>>,
    regions: Seq<Span>,
    block: (int, int),
) -> bool {
    is_live(regions, block) && !is_held_back(lists, block)
}

/// Every block that a class holds back is one that a region has out, and none is held back
/// twice.
pub open spec fn lists_sound(lists: Seq<Seq<usize>>, regions: Seq<Span>) -> bool {
    &&& lists.len() == NUM_CLASSES
    &&& forall|k: int, n: int|
        0 <= k < lists.len() && 0 <= n < lists[k].len() ==> is_live(
            regions,
            #[trigger] held_back(lists, k, n),
        )
    &&& forall|k: int, n: int, l: int, m: int|
        #![trigger held_back(lists, k, n), held_back(lists, l, m)]
        0 <= k < lists.len() && 0 <= n < lists[k].len() && 0 <= l < lists.len() && 0 <= m
            < lists[l].len() && held_back(lists, k, n) == held_back(lists, l, m) ==> k == l && n
            == m
}

/// What was freed last is handed out next: a block that its class retains serves the next
/// request of that class, and the lists are then as they were.
pub proof fn freed_blocks_are_recycled(
    lists: Seq<Seq<usize>>,
    regions: Seq<Span>,
    address: usize,
    freed: BlockLayout,
    lists_after: Seq<Seq<usize>>,
    regions_after: Seq<Span>,
    block: Option<usize>,
    asked: BlockLayout,
)
    requires
        lists.len() == NUM_CLASSES,
        released(lists, regions, address, freed).1 is None,
        class_of(asked) == class_of(freed),
        allocated(
            released(lists, regions, address, freed).0,
            regions,
            lists_after,
            regions_after,
            block,
            asked,
        ),
    ensures
        block == Some(address),
        lists_after == lists,
        regions_after == regions,
{
    let k = class_of(freed)->0;
    assert(lists[k].push(address).drop_last() =~= lists[k]);
    assert(lists.update(k, lists[k].push(address)).update(k, lists[k]) =~= lists);
}

/// A class never holds back more than its cap: giving a block back keeps every list within it.
pub proof fn retention_is_capped(
    lists: Seq<Seq<usize>>,
    regions: Seq<Span>,
    address: usize,
    layout: BlockLayout,
    k: int,
)
    requires
        lists.len() == NUM_CLASSES,
        0 <= k < NUM_CLASSES,
        lists[k].len() <= RETAIN_CAP,
    ensures
        released(lists, regions, address, layout).0[k].len() <= RETAIN_CAP,
        lists[k].len() == RETAIN_CAP && class_of(layout) == Some(k) ==> released(
            lists,
            regions,
            address,
            layout,
        ).1 is Some,
{
}

/// No block is handed out twice: what an allocation returns was in no user's hands before, and
/// it is the only block that changes hands.
pub proof fn nothing_is_handed_out_twice(
    lists: Seq<Seq<usize>>,
    regions: Seq<Span>,
    lists_after: Seq<Seq<usize>>,
    regions_after: Seq<Span>,
    address: usize,
    layout: BlockLayout,
)
    requires
        lists_sound(lists, regions),
        regions_wf(regions),
        regions_wf(regions_after),
        spans_apart(regions_after),
        allocated(lists, regions, lists_after, regions_after, Some(address), layout),
    ensures
        lists_sound(lists_after, regions_after),
        !is_handed_out(lists, regions, (address as int, block_layout(layout).size as int)),
        forall|b: (int, int)| #[trigger]
            is_handed_out(lists_after, regions_after, b) <==> is_handed_out(lists, regions, b) || b
                == (address as int, block_layout(layout).size as int),
{
    let block = (address as int, block_layout(layout).size as int);
    if class_of(layout) is Some && lists[class_of(layout)->0].len() > 0 {
        let k = class_of(layout)->0;
        let top = lists[k].len() - 1;
        assert(held_back(lists, k, top) == block);
        assert forall|b: (int, int)| b != block implies is_held_back(lists, b) == is_held_back(
            lists_after,
            b,
        ) by {
            if is_held_back(lists, b) {
                let (l, m) = choose|l: int, m: int|
                    0 <= l < lists.len() && 0 <= m < lists[l].len() && #[trigger] held_back(
                        lists,
                        l,
                        m,
                    ) == b;
                assert(held_back(lists_after, l, m) == b);
            }
            if is_held_back(lists_after, b) {
                let (l, m) = choose|l: int, m: int|
                    0 <= l < lists_after.len() && 0 <= m < lists_after[l].len()
                        && #[trigger] held_back(lists_after, l, m) == b;
                assert(held_back(lists, l, m) == b);
            }
        }
        assert(!is_held_back(lists_after, block)) by {
            if is_held_back(lists_after, block) {
                let (l, m) = choose|l: int, m: int|
                    0 <= l < lists_after.len() && 0 <= m < lists_after[l].len()
                        && #[trigger] held_back(lists_after, l, m) == block;
                assert(held_back(lists, l, m) == block);
            }
        }
        assert forall|l: int, m: int|
            0 <= l < lists_after.len() && 0 <= m < lists_after[l].len() implies is_live(
            regions_after,
            #[trigger] held_back(lists_after, l, m),
        ) by {
            assert(held_back(lists, l, m) == held_back(lists_after, l, m));
        }
        assert forall|l: int, m: int, p: int, q: int|
            #![trigger held_back(lists_after, l, m), held_back(lists_after, p, q)]
            0 <= l < lists_after.len() && 0 <= m < lists_after[l].len() && 0 <= p
                < lists_after.len() && 0 <= q < lists_after[p].len() && held_back(
                lists_after,
                l,
                m,
            ) == held_back(lists_after, p, q) implies l == p && m == q by {
            assert(held_back(lists, l, m) == held_back(lists, p, q));
        }
    } else {
        lemma_one_block_goes_live(regions, regions_after, address, block_layout(layout));
        assert forall|l: int, m: int|
            0 <= l < lists_after.len() && 0 <= m < lists_after[l].len() implies is_live(
            regions_after,
            #[trigger] held_back(lists_after, l, m),
        ) by {
            assert(is_live(regions, held_back(lists, l, m)));
        }
    }
}

proof fn lemma_one_block_goes_live(
    regions: Seq<Span>,
    after: Seq<Span>,
    address: usize,
    layout: BlockLayout,
)
    requires
        regions_wf(regions),
        regions_wf(after),
        spans_apart(after),
        served(regions, after, Some(address), layout),
    ensures
        !is_live(regions, (address as int, layout.size as int)),
        forall|b: (int, int)| #[trigger]
            is_live(after, b) <==> is_live(regions, b) || b == (
                address as int,
                layout.size as int,
            ),
{
    if exists|i: int| block_taken(regions, after, i, address, layout) {
        let i = choose|i: int| block_taken(regions, after, i, address, layout);
        lemma_taken_is_new(regions, after, i, address, layout);
    } else {
        let grown = choose|grown: Seq<Span>|
            #[trigger] region_added(regions, grown, span_needed(layout)) && block_taken(
                grown,
                after,
                regions.len() as int,
                address,
                layout,
            );
        assert forall|j: int| 0 <= j < grown.len() implies #[trigger] grown[j].wf() by {
            if j < regions.len() {
                assert(grown.drop_last()[j] == grown[j]);
                assert(regions[j].wf());
            }
        }
        lemma_taken_is_new(grown, after, regions.len() as int, address, layout);
        assert forall|b: (int, int)| #[trigger] is_live(grown, b) <==> is_live(regions, b) by {
            if is_live(grown, b) {
                let i = choose|i: int|
                    0 <= i < grown.len() && #[trigger] live_blocks(grown[i].heap).contains(b);
                assert(i < regions.len());
                assert(grown.drop_last()[i] == grown[i]);
                assert(live_blocks(regions[i].heap).contains(b));
            }
            if is_live(regions, b) {
                let i = choose|i: int|
                    0 <= i < regions.len() && #[trigger] live_blocks(regions[i].heap).contains(b);
                assert(grown.drop_last()[i] == grown[i]);
                assert(live_blocks(grown[i].heap).contains(b));
            }
        }
    }
}

proof fn lemma_taken_is_new(
    regions: Seq<Span>,
    after: Seq<Span>,
    i: int,
    address: usize,
    layout: BlockLayout,
)
    requires
        forall|j: int| 0 <= j < regions.len() ==> #[trigger] regions[j].wf(),
        spans_apart(after),
        block_taken(regions, after, i, address, layout),
    ensures
        !is_live(regions, (address as int, layout.size as int)),
        forall|b: (int, int)| #[trigger]
            is_live(after, b) <==> is_live(regions, b) || b == (
                address as int,
                layout.size as int,
            ),
{
    let block = (address as int, layout.size as int);
    assert(after[i].holds(address as int));
    if is_live(regions, block) {
        let j = choose|j: int|
            0 <= j < regions.len() && #[trigger] live_blocks(regions[j].heap).contains(block);
        assert(regions[j].wf());
        assert(after[j].holds(address as int));
    }
    assert forall|b: (int, int)| #[trigger]
        is_live(after, b) <==> is_live(regions, b) || b == block by {
        if is_live(after, b) && b != block {
            let j = choose|j: int|
                0 <= j < after.len() && #[trigger] live_blocks(after[j].heap).contains(b);
            assert(live_blocks(regions[j].heap).contains(b));
        }
        if is_live(regions, b) {
            let j = choose|j: int|
                0 <= j < regions.len() && #[trigger] live_blocks(regions[j].heap).contains(b);
            assert(live_blocks(after[j].heap).contains(b));
        }
        assert(live_blocks(after[i].heap).contains(block));
    }
}

/// A block that its class retains leaves its user's hands and no other block does.
pub proof fn retained_blocks_leave_their_user(
    lists: Seq<Seq<usize>>,
    regions: Seq<Span>,
    address: usize,
    layout: BlockLayout,
)
    requires
        lists_sound(lists, regions),
        is_handed_out(lists, regions, (address as int, block_layout(layout).size as int)),
        released(lists, regions, address, layout).1 is None,
    ensures
        lists_sound(released(lists, regions, address, layout).0, regions),
        forall|b: (int, int)| #[trigger]
            is_handed_out(released(lists, regions, address, layout).0, regions, b)
                <==> is_handed_out(lists, regions, b) && b != (
                address as int,
                block_layout(layout).size as int,
            ),
{
    let k = class_of(layout)->0;
    let block = (address as int, block_layout(layout).size as int);
    let after = released(lists, regions, address, layout).0;
    assert(held_back(after, k, lists[k].len() as int) == block);
    assert forall|l: int, m: int|
        0 <= l < after.len() && 0 <= m < after[l].len() && !(l == k && m
            == lists[k].len()) implies #[trigger] held_back(after, l, m) == held_back(
        lists,
        l,
        m,
    ) by {}
    assert forall|b: (int, int)| is_held_back(after, b) <==> is_held_back(lists, b) || b
        == block by {
        if is_held_back(lists, b) {
            let (l, m) = choose|l: int, m: int|
                0 <= l < lists.len() && 0 <= m < lists[l].len() && #[trigger] held_back(
                    lists,
                    l,
                    m,
                ) == b;
            assert(held_back(after, l, m) == b);
        }
        if is_held_back(after, b) {
            let (l, m) = choose|l: int, m: int|
                0 <= l < after.len() && 0 <= m < after[l].len() && #[trigger] held_back(
                    after,
                    l,
                    m,
                ) == b;
            if !(l == k && m == lists[k].len()) {
                assert(held_back(lists, l, m) == b);
            }
        }
    }
    assert forall|l: int, m: int, p: int, q: int|
        #![trigger held_back(after, l, m), held_back(after, p, q)]
        0 <= l < after.len() && 0 <= m < after[l].len() && 0 <= p < after.len() && 0 <= q
            < after[p].len() && held_back(after, l, m) == held_back(after, p, q) implies l == p
        && m == q by {
        let n = lists[k].len() as int;
        if l == k && m == n {
            if !(p == k && q == n) {
                assert(held_back(lists, p, q) == block);
                assert(is_held_back(lists, block));
            }
        } else if p == k && q == n {
            assert(held_back(lists, l, m) == block);
            assert(is_held_back(lists, block));
        } else {
            assert(held_back(lists, l, m) == held_back(lists, p, q));
        }
    }
}

/// The classes hold blocks of 16, 32, 64, 128 and 256 bytes, at multiples of 16. A request is served by the smallest
/// class that it fits; one of more than 256 bytes, or with a stricter alignment, by none.
pub proof fn requests_take_the_smallest_class(layout: BlockLayout, k: int)
    ensures
        class_size(0) == 16 && class_size(1) == 32 && class_size(2) == 64 && class_size(3) == 128
            && class_size(4) == 256,
        class_of(layout) is None <==> layout.align > 16 || layout.size > 256,
        class_of(layout) == Some(k) ==> {
            &&& 0 <= k < 5
            &&& layout.size <= class_size(k)
            &&& forall|j: int| 0 <= j < k ==> layout.size > #[trigger] class_size(j)
        },
        class_of(layout) matches Some(c) ==> block_layout(layout) == (BlockLayout {
            size: class_size(c),
            align: 16,
        }),
        class_of(layout) is None ==> block_layout(layout) == layout,
        block_layout(layout).size >= layout.size,
        block_layout(layout).align >= layout.align,
{
}

/// A new region has to hold the request, its alignment and a list node of 16 bytes, as far as an address can say,
/// and it must not begin at zero.
pub proof fn regions_fit_their_request(layout: BlockLayout, base: int, len: int)
    ensures
        layout.size + layout.align + 16 <= usize::MAX ==> span_needed(layout) == layout.size
            + layout.align + 16,
        layout.size + layout.align + 16 > usize::MAX ==> span_needed(layout) == usize::MAX,
        admissible(base, len, span_needed(layout)) <==> base != 0 && len >= span_needed(layout),
{
}

/// The owner of an address is the first region that holds it, and there is none where no region does.
pub proof fn owners_hold_the_address(regions: Seq<Span>, address: int, i: int)
    requires
        0 <= i <= regions.len(),
        forall|j: int|
            0 <= j < i ==> !((#[trigger] regions[j]).base <= address < regions[j].base
                + regions[j].len),
    ensures
        i == regions.len() ==> owner_of(regions, address) is None,
        i < regions.len() && regions[i].base <= address < regions[i].base + regions[i].len ==> owner_of(
            regions,
            address,
        ) == Some(i),
    decreases regions.len(),
{
    if regions.len() > 0 {
        let part = regions.drop_last();
        let at = if i < part.len() {
            i
        } else {
            part.len() as int
        };
        assert forall|j: int| 0 <= j < at implies !((#[trigger] part[j]).base <= address < part[j].base
            + part[j].len) by {
            assert(part[j] == regions[j]);
        }
        owners_hold_the_address(part, address, at);
        if i < part.len() {
            assert(part[i] == regions[i]);
        }
        if i == regions.len() {
            assert(!(regions[i - 1].base <= address < regions[i - 1].base + regions[i - 1].len));
        }
    }
}

/// Memory is asked for in whole pages of 4096 bytes, at least 64 of them, and no page too many; a size that no
/// address can count is not asked for.
pub proof fn growth_is_in_pages(min: int)
    requires
        0 <= min,
    ensures
        growth_bytes(min) matches Some(n) ==> {
            &&& n % 4096 == 0
            &&& n >= min
            &&& n >= 0x4_0000
            &&& n < min + 4096 || n == 0x4_0000
        },
        growth_bytes(min) is None <==> (if min < 0x4_0000 {
            0x4_0000
        } else {
            min
        }) + 4095 > usize::MAX,
{
}

/// A block of a class is held back by it, as long as that holds fewer than 64, and goes behind the others; all
/// other blocks go to the region that owns them, and no list changes.
pub proof fn blocks_are_held_back_by_class(
    lists: Seq<Seq<usize>>,
    regions: Seq<Span>,
    address: usize,
    layout: BlockLayout,
)
    requires
        lists.len() == 5,
    ensures
        ({
            let (after, home) = released(lists, regions, address, layout);
            let back = Some((block_layout(layout), owner_of(regions, address as int)));
            &&& class_of(layout) is None ==> after == lists && home == back
            &&& class_of(layout) matches Some(k) ==> {
                &&& lists[k].len() < 64 ==> home is None && after == lists.update(
                    k,
                    lists[k] + seq![address],
                )
                &&& lists[k].len() >= 64 ==> after == lists && home == back
            }
        }),
{
    if class_of(layout) is Some {
        let k = class_of(layout)->0;
        assert(lists[k].push(address) =~= lists[k] + seq![address]);
    }
}

} // verus!
