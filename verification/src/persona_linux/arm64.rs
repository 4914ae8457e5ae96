//! ARM64 Linux syscall numbers that the personality serves.

use vstd::prelude::*;

verus! {

pub const OPENAT: u64 = 56;

pub const CLOSE: u64 = 57;

pub const READ: u64 = 63;

pub const WRITE: u64 = 64;

pub const WRITEV: u64 = 66;

pub const NEWFSTATAT: u64 = 79;

pub const EXIT: u64 = 93;

pub const EXIT_GROUP: u64 = 94;

pub const MUNMAP: u64 = 215;

pub const BRK: u64 = 214;

pub const MMAP: u64 = 222;

pub const STDOUT: u64 = 1;

pub const STDERR: u64 = 2;

} // verus!
