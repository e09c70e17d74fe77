//! Heat diffusion on a dense two-dimensional grid of cells, in exact
//! fixed-point arithmetic.
//!
//! Temperatures, conductivities and the transfer coefficient are integers
//! counted in thousandths of their unit, so every contract in this crate is a
//! statement about mathematical integers: what a tick does to a grid is pinned
//! down to the last digit, and the conservation and the stability of the
//! update are theorems rather than observations.
//!
//! * [`units`]: the fixed-point scale and the rounding and saturation rules;
//! * [`time`]: what is taken on trust about `std::time::Duration`;
//! * [`temperature`]: cells and the pairwise transfer law;
//! * [`clock`]: the rate gate that decides when a diffusion step is due;
//! * [`grid`]: the dense cell store and its neighbor resolver;
//! * [`diffusion`]: the two-phase (gather, apply) diffusion step;
//! * [`theorems`]: what a step does to a still grid, to an isolated pair and
//!   around a single hot cell;
//! * [`conservation`]: a step neither creates nor destroys heat;
//! * [`stability`]: in the damped range a step never overshoots;
//! * [`geometry`]: coordinates and vectors over an arithmetic component type;
//! * [`resources`], [`states`]: plain data shared with the host.
pub mod units;
pub mod time;
pub mod temperature;
pub mod clock;
pub mod grid;
pub mod diffusion;
pub mod theorems;
pub mod conservation;
pub mod stability;
pub mod geometry;
pub mod resources;
pub mod states;

pub use crate::clock::SimulationRate;
