//! Verified logic of a small capability microkernel's userland: its shell
//! language, terminal, health, block, framebuffer, input and filesystem
//! servers, the boot supervisor's loaders and policies, and the runtime they
//! share.
//!
//! Every module states its behaviour in contracts over sequences of bytes and
//! integers. Nothing here performs I/O: a caller moves bytes in and out, and
//! hands results of system calls to the state machines of this crate.

pub mod abi;
pub mod bus_config;
pub mod bytes;
pub mod drv_blk;
pub mod drv_fb;
pub mod drv_geni_i2c;
pub mod drv_i2c_hid;
pub mod drv_serial;
pub mod drv_xhci;
pub mod fatfs;
pub mod hid;
pub mod i2cdetect;
pub mod kumo_dispatch;
pub mod kumo_rt;
pub mod kumoza;
pub mod lua_repl;
pub mod numerals;
pub mod persona_linux;
pub mod persona_posix;
pub mod programs;
pub mod sora;
pub mod svc_health;
pub mod text;
pub mod threads;
pub mod transport;
pub mod ttyd;
pub mod wc;
