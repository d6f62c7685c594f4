//! A music quiz: rounds of "name the track" drawn from a library snapshot,
//! played through a deterministic, seeded state machine.

pub mod error;
pub mod rng;
pub mod library;
pub mod config;
pub mod round;
pub mod builder;
pub mod session;
pub mod engine;
pub mod laws;
pub mod shell;
