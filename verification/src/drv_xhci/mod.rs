//! The USB host controller driver: the words it writes, the way it scans ports
//! and waits for events, and the steps by which it brings devices up.

pub mod bringup;
pub mod events;
pub mod ladder;
pub mod ports;
pub mod setup;
pub mod words;
