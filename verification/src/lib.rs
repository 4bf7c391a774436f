//! A colony of foraging agents coordinated through a decaying, double-buffered
//! trail field.
//!
//! The crate models one frame of the simulation as a fixed pipeline: the trail
//! field is diffused and decayed from its source buffer into its destination
//! buffer, every agent senses the destination buffer, moves, changes state and
//! deposits, and the two buffers trade roles. All quantities are integers:
//! positions are grid cells, headings are the eight compass directions and
//! concentrations are bounded counters.

pub mod agent;
pub mod colony;
pub mod compositor;
pub mod decay;
pub mod geometry;
pub mod random;
pub mod scheduler;
pub mod simulation;
pub mod trail;
pub mod world;
