//! The framebuffer driver: a text console on a linear framebuffer, and its
//! start.

pub mod console;
pub mod startup;
