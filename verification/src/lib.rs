//! A small verified simulation of autonomous agents exploring a procedurally
//! generated grid world, discovering resource deposits, and extracting them
//! back to a fixed station.
#![verifier::loop_isolation(false)]

pub mod rng;
pub mod grid;
pub mod motion;
pub mod explorer;
pub mod extractor;
pub mod sim;
