//! Plain values that cross the kernel boundary.

use vstd::prelude::*;

verus! {

/// A process-local capability number. Zero is no handle.
#[derive(Clone, Copy, Debug, PartialEq, Eq, Structural)]
pub struct Handle(pub u32);

/// The raw result with which a call that returns a handle reports failure.
pub const NO_HANDLE: u64 = u64::MAX;

/// The status of a call that succeeded.
pub const STATUS_OK: i32 = 0;

/// The handle in a raw result.
pub open spec fn handle_of(raw: u64) -> Handle {
    Handle(raw as u32)
}

/// Takes the handle out of a raw result.
pub fn to_handle(raw: u64) -> (h: Handle)
    ensures
        h == handle_of(raw),
{
    Handle(raw as u32)
}

} // verus!
