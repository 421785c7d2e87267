use vstd::prelude::*;
use crate::density::{calculate_densities, density_spec, indices_in_bounds};
use crate::neighbors::{find_neighborhoods, is_neighbor, is_neighborhood};
use crate::particle::{Particle, SphError};
use crate::pressure::{calculate_pressures, pressure_fits, tait};

verus! {

/// The physical parameters of one simulation.
#[derive(Clone, Copy, Debug, PartialEq, Eq, Structural)]
pub struct SphConfig {
    /// Cutoff radius of the neighbour search, in length units.
    pub neighbor_range: u64,
    /// Smoothing length of the kernel, in length units.
    pub smoothing_length: u32,
    /// Mass of every particle.
    pub particle_mass: u32,
    /// Stiffness `k` of the equation of state.
    pub stiffness: u64,
    /// Polytropic exponent `gamma` of the equation of state.
    pub exponent: u32,
    /// Rest density of the fluid, in the units of the computed densities.
    pub reference_density: u128,
}

/// What one step computes, index-aligned with the particle set.
#[derive(Debug)]
pub struct StepOutput {
    pub neighborhoods: Vec<Vec<usize>>,
    pub densities: Vec<u128>,
    pub pressures: Vec<i128>,
}

/// Every parameter that must be positive is.
pub open spec fn config_valid(c: SphConfig) -> bool {
    &&& c.neighbor_range > 0
    &&& c.smoothing_length > 0
    &&& c.particle_mass > 0
    &&& c.reference_density > 0
    &&& c.exponent > 0
}

/// The error a step reports for a configuration that is not valid: the first
/// offending parameter in the order range, smoothing length, mass, reference
/// density, exponent.
pub open spec fn config_error(c: SphConfig) -> SphError {
    if c.neighbor_range == 0 {
        SphError::NonPositiveRange
    } else if c.smoothing_length == 0 {
        SphError::NonPositiveSmoothingLength
    } else if c.particle_mass == 0 {
        SphError::NonPositiveMass
    } else if c.reference_density == 0 {
        SphError::NonPositiveReferenceDensity
    } else {
        SphError::ZeroExponent
    }
}

/// The density of particle `i` under `c`, for the neighbourhood `nb`.
pub open spec fn config_density(ps: Seq<Particle>, c: SphConfig, i: int, nb: Seq<usize>) -> int {
    density_spec(ps, i, nb, c.smoothing_length as int, c.particle_mass as int)
}

/// Runs neighbour search, density estimation and the equation of state on one
/// particle set.
pub fn sph_step(config: &SphConfig, particles: &Vec<Particle>) -> (r: Result<StepOutput, SphError>)
    ensures
        !config_valid(*config) ==> r == Err::<StepOutput, SphError>(config_error(*config)),
        config_valid(*config) ==> {
            &&& r is Err ==> r == Err::<StepOutput, SphError>(SphError::Overflow)
            &&& r is Err ==> exists|i: int, nb: Seq<usize>|
                0 <= i < particles.len() && is_neighborhood(
                    particles@,
                    config.neighbor_range as int,
                    i,
                    nb,
                ) && !pressure_fits(
                    #[trigger] config_density(particles@, *config, i, nb),
                    config.stiffness as int,
                    config.exponent as nat,
                    config.reference_density as int,
                )
            &&& r matches Ok(out) ==> {
                &&& out.neighborhoods.len() == particles.len()
                &&& out.densities.len() == particles.len()
                &&& out.pressures.len() == particles.len()
                &&& forall|i: int|
                    0 <= i < particles.len() ==> {
                        &&& is_neighborhood(
                            particles@,
                            config.neighbor_range as int,
                            i,
                            #[trigger] out.neighborhoods[i]@,
                        )
                        &&& out.densities[i] as int == config_density(
                            particles@,
                            *config,
                            i,
                            out.neighborhoods[i]@,
                        )
                        &&& out.pressures[i] as int == tait(
                            out.densities[i] as int,
                            config.stiffness as int,
                            config.exponent as nat,
                            config.reference_density as int,
                        )
                    }
            }
        },
{
    if config.neighbor_range == 0 {
        return Err(SphError::NonPositiveRange);
    }
    if config.smoothing_length == 0 {
        return Err(SphError::NonPositiveSmoothingLength);
    }
    if config.particle_mass == 0 {
        return Err(SphError::NonPositiveMass);
    }
    if config.reference_density == 0 {
        return Err(SphError::NonPositiveReferenceDensity);
    }
    if config.exponent == 0 {
        return Err(SphError::ZeroExponent);
    }
    let neighborhoods = match find_neighborhoods(config.neighbor_range, particles) {
        Ok(ns) => ns,
        Err(e) => return Err(e),
    };
    assert(indices_in_bounds(neighborhoods@, particles.len() as int)) by {
        assert forall|i: int, k: int|
            0 <= i < neighborhoods.len() && 0 <= k < neighborhoods[i].len() implies
            neighborhoods[i][k] < particles.len() by {
            assert(is_neighborhood(
                particles@,
                config.neighbor_range as int,
                i,
                neighborhoods[i]@,
            ));
            assert(is_neighbor(
                particles@,
                config.neighbor_range as int,
                i,
                neighborhoods[i]@[k] as int,
            ));
        }
    }
    let densities = match calculate_densities(
        &neighborhoods,
        particles,
        config.smoothing_length,
        config.particle_mass,
    ) {
        Ok(ds) => ds,
        Err(e) => return Err(e),
    };
    let pressures = match calculate_pressures(
        &densities,
        config.stiffness,
        config.exponent,
        config.reference_density,
    ) {
        Ok(ps) => ps,
        Err(e) => {
            proof {
                let i = choose|i: int|
                    0 <= i < densities.len() && !pressure_fits(
                        #[trigger] densities[i] as int,
                        config.stiffness as int,
                        config.exponent as nat,
                        config.reference_density as int,
                    );
                assert(is_neighborhood(
                    particles@,
                    config.neighbor_range as int,
                    i,
                    neighborhoods[i]@,
                ));
                assert(config_density(particles@, *config, i, neighborhoods[i]@) == densities[i]
                    as int);
            }
            return Err(e);
        },
    };
    Ok(StepOutput { neighborhoods, densities, pressures })
}

} // verus!
