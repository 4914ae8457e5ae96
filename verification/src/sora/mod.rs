//! The boot supervisor.

pub mod boot;
pub mod fat;
pub mod heap;
pub mod initrd;
pub mod loader;
pub mod policy;
pub mod sectors;
pub mod sequence;
pub mod serve;
pub mod shell;
pub mod smoke;
pub mod spawn;
pub mod vmo;
pub mod watch;
