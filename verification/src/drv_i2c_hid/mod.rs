//! The driver of keyboards and pointers on an I2C bus: its bootstrap messages,
//! its reading of reports, and its bookkeeping.

pub mod config;
pub mod report;
pub mod serve;
pub mod startup;
pub mod stats;
