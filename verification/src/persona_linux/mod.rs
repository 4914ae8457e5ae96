//! The Linux personality: syscall numbers and static executables.

pub mod arm64;
pub mod elf;
