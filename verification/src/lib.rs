//! The engine of a fireworks display.
//!
//! Rockets climb from a launch point, expire, and burst into particles; a
//! launch timer that arms itself anew sends up the next rocket. The engine
//! keeps the rockets, moves them, and decides what leaves and what comes
//! to be in each step. It draws nothing and reads no clock: its caller
//! hands it the elapsed time and gets back what changed.
//!
//! All quantities are fixed-point numbers (see `fixed`), so that a step
//! of a display is the same function on every machine. Every function of
//! the library is verified against the contract it carries, but for the
//! one call into `rand` (see `random`), whose contract is taken on trust.

pub mod burst;
pub mod config;
pub mod draws;
pub mod engine;
pub mod fixed;
pub mod input;
pub mod launch;
pub mod laws;
pub mod random;
pub mod ring;
pub mod rocket;
pub mod store;
