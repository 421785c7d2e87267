//! One step of a smoothed particle hydrodynamics (SPH) simulation on a
//! fixed-point grid: neighbour search, kernel-weighted density estimation and
//! the Tait equation of state.
//!
//! Lengths are integers in a unit of the caller's choice (for example
//! micrometres). Kernel weights are fixed-point values scaled by
//! `WEIGHT_SCALE`, so a density is a particle mass times a weight sum.
pub mod density;
pub mod kernel;
pub mod neighbors;
pub mod particle;
pub mod pipeline;
pub mod pressure;
pub mod vector;

pub use density::calculate_densities;
pub use kernel::{WEIGHT_SCALE, kernel};
pub use neighbors::find_neighborhoods;
pub use particle::{Particle, SphError};
pub use pipeline::{SphConfig, StepOutput, sph_step};
pub use pressure::calculate_pressures;
pub use vector::{Vector3, distance};
