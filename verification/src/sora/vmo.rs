//! Random-access reads of a virtual memory object, as the loaders see them.

use vstd::prelude::*;

verus! {

/// The answers of a memory object to read requests: what a read of `n` bytes
/// at an offset returns, or `None` where the kernel refuses it.
pub type Vmo = spec_fn(u64, usize) -> Option<Seq<u8>>;

/// What a reader handed back, as plain data.
pub open spec fn answer(r: Option<Vec<u8>>) -> Option<Seq<u8>> {
    match r {
        Some(v) => Some(v@),
        None => None,
    }
}

/// The reader can be asked for any range, and a granted read returns as many
/// bytes as were asked for.
pub open spec fn is_reader<R: Fn(u64, usize) -> Option<Vec<u8>>>(read: R) -> bool {
    &&& forall|at: u64, n: usize| call_requires(read, (at, n))
    &&& forall|at: u64, n: usize, r: Option<Vec<u8>>| #[trigger]
        call_ensures(read, (at, n), r) ==> (r matches Some(v) ==> v@.len() == n)
}

/// The reader's answers are those of `vmo`.
pub open spec fn follows<R: Fn(u64, usize) -> Option<Vec<u8>>>(read: R, vmo: Vmo) -> bool {
    forall|at: u64, n: usize, r: Option<Vec<u8>>| #[trigger]
        call_ensures(read, (at, n), r) ==> answer(r) == vmo(at, n)
}

/// The memory object that holds `image`: a read inside it returns its bytes,
/// a read past its end is refused.
pub open spec fn image_vmo(image: Seq<u8>) -> Vmo {
    |at: u64, n: usize|
        if at + n <= image.len() {
            Some(image.subrange(at as int, at + n))
        } else {
            None
        }
}

} // verus!
