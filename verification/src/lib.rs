//! A verified simulator for deterministic single-tape Turing machines.
//!
//! The crate is organised in three layers: [`text`] holds small verified
//! helpers for characters and strings, [`table`] holds the transition table
//! that maps a (state name, read symbol) pair to the unique applicable rule,
//! [`tape`] holds the sparse, unbounded, blank-defaulting tape, and
//! [`machine`] ties them together into the step/run engine.

pub mod machine;
pub mod table;
pub mod tape;
pub mod text;
