//! Measurement core of a throughput benchmark for a memory-mapped device
//! region.
//!
//! The crate decides *what* to measure and *what the measurements mean*:
//! which offsets a run touches, how many repetitions a transaction size
//! gets, how a set of timed repetitions is reduced to a result, and how a
//! sweep is summarised.
//!
//! Touching the device and reading the clock are left to the caller. A run
//! is a sequence of steps; the caller hands in a function that carries out
//! one step and says what became of it, or takes the steps one by one from
//! the state machine that every run is.

pub mod error;
pub mod region;
pub mod config;
pub mod offsets;
pub mod stats;
pub mod result;
pub mod collector;
pub mod sweep;
pub mod report;
pub mod driver;
pub mod compare;
pub mod probe;
pub mod text;
pub mod device;
pub mod hexdump;
pub mod pci;
