//! The states that the host of the simulation moves through.
pub mod generation;
