use vstd::prelude::*;
use crate::vector::Vector3;

verus! {

/// One fluid element: where it is, how it moves, and its density estimate.
#[derive(Clone, Copy, Debug, PartialEq, Eq, Structural)]
pub struct Particle {
    pub position: Vector3,
    pub velocity: Vector3,
    pub density: u128,
}

impl Particle {
    pub fn new(position: Vector3, velocity: Vector3, density: u128) -> (r: Particle)
        ensures
            r == (Particle { position, velocity, density }),
    {
        Particle { position, velocity, density }
    }
}

/// Why a pipeline stage rejected its parameters.
#[derive(Clone, Copy, Debug, PartialEq, Eq, Structural)]
pub enum SphError {
    /// The neighbour cutoff range is zero.
    NonPositiveRange,
    /// The smoothing length is zero.
    NonPositiveSmoothingLength,
    /// The particle mass is zero.
    NonPositiveMass,
    /// The reference density is zero.
    NonPositiveReferenceDensity,
    /// The polytropic exponent is zero.
    ZeroExponent,
    /// A pressure does not fit the fixed-width arithmetic.
    Overflow,
}

} // verus!
