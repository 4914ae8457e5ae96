//! The supervisor's bump allocator: blocks are carved off one fixed span and never come back.

use vstd::prelude::*;

verus! {

/// Bytes of the span.
pub const HEAP_SIZE: usize = 0x1_0000;

/// A bump allocator. `pos` is the offset behind the last block.
#[derive(Clone, Copy, Debug, PartialEq, Eq, Structural)]
pub struct BumpAlloc {
    pub pos: usize,
}

/// The first multiple of `align` at or behind `pos`.
pub open spec fn aligned(pos: int, align: int) -> int {
    (pos + align - 1) / align * align
}

/// The offset of a block of `size` bytes at `align`, and the position behind it. A block that
/// does not fit gets none.
pub open spec fn bumped(pos: int, size: int, align: int) -> Option<(int, int)> {
    let start = aligned(pos, align);
    if start + size > HEAP_SIZE {
        None
    } else {
        Some((start, start + size))
    }
}

impl BumpAlloc {
    pub open spec fn wf(self) -> bool {
        self.pos <= HEAP_SIZE
    }

    /// An allocator that has handed out nothing.
    pub fn new() -> (b: BumpAlloc)
        ensures
            b.pos == 0,
            b.wf(),
    {
        BumpAlloc { pos: 0 }
    }

    /// The offset of a fresh block, or `None` where the span is used up.
    ///
    /// A layout's size, rounded up to its alignment, fits in `isize`.
    pub fn reserve(&mut self, size: usize, align: usize) -> (offset: Option<usize>)
        requires
            old(self).wf(),
            align > 0,
            size + align - 1 <= isize::MAX,
        ensures
            final(self).wf(),
            match bumped(old(self).pos as int, size as int, align as int) {
                None => offset is None && *final(self) == *old(self),
                Some((start, end)) => offset == Some(start as usize) && final(self).pos == end,
            },
    {
        let padded: usize = self.pos + (align - 1);
        proof {
            lemma_aligned(self.pos as int, align as int);
        }
        assert(padded / align * align == aligned(self.pos as int, align as int));
        assert(padded / align * align <= padded) by (nonlinear_arith)
            requires
                align > 0,
        ;
        let start: usize = padded / align * align;
        let end: usize = start + size;
        if end > HEAP_SIZE {
            return None;
        }
        self.pos = end;
        Some(start)
    }
}

proof fn lemma_aligned(pos: int, align: int)
    requires
        pos >= 0,
        align > 0,
    ensures
        pos <= aligned(pos, align) <= pos + align - 1,
        aligned(pos, align) % align == 0,
{
    let q = (pos + align - 1) / align;
    assert(q * align <= pos + align - 1 < q * align + align) by (nonlinear_arith)
        requires
            q == (pos + align - 1) / align,
            align > 0,
    ;
    assert((q * align) % align == 0) by (nonlinear_arith)
        requires
            align > 0,
    ;
}

/// Blocks do not overlap and keep their alignment: each starts behind everything that was handed
/// out before, at a multiple of its alignment, and lies inside the span.
pub proof fn blocks_follow_each_other(pos: int, size: int, align: int)
    requires
        0 <= pos <= HEAP_SIZE,
        size >= 0,
        align > 0,
    ensures
        bumped(pos, size, align) matches Some((start, end)) ==> {
            &&& pos <= start
            &&& start % align == 0
            &&& start + size == end
            &&& end <= HEAP_SIZE
        },
{
    lemma_aligned(pos, align);
}

/// A block starts at the first multiple of its alignment that is free, and it is refused just where it
/// would end behind the span's 0x1_0000 bytes.
pub proof fn blocks_waste_less_than_their_alignment(pos: int, size: int, align: int)
    requires
        0 <= pos,
        align > 0,
    ensures
        aligned(pos, align) % align == 0,
        pos <= aligned(pos, align) < pos + align,
        bumped(pos, size, align) is None <==> aligned(pos, align) + size > 0x1_0000,
        bumped(pos, size, align) is Some ==> bumped(pos, size, align) == Some(
            (aligned(pos, align), aligned(pos, align) + size),
        ),
{
    let n = pos + align - 1;
    let q = n / align;
    vstd::arithmetic::div_mod::lemma_fundamental_div_mod(n, align);
    vstd::arithmetic::div_mod::lemma_mod_bound(n, align);
    assert(q * align == align * q) by (nonlinear_arith);
    vstd::arithmetic::div_mod::lemma_mod_multiples_basic(q, align);
}

} // verus!
