use vstd::prelude::*;
use crate::kernel::{kernel, kernel_spec, lemma_kernel_bounds, max_weight};
use crate::particle::{Particle, SphError};
use crate::vector::{distance, spec_distance};

verus! {

/// The sum of kernel weights that the particles listed in `nb` contribute to
/// particle `i`.
pub open spec fn kernel_sum(ps: Seq<Particle>, i: int, nb: Seq<usize>, h: int) -> int
    decreases nb.len(),
{
    if nb.len() == 0 {
        0
    } else {
        kernel_sum(ps, i, nb.drop_last(), h) + kernel_spec(
            spec_distance(ps[i].position, ps[nb.last() as int].position) as int,
            h,
        )
    }
}

/// The SPH density estimate of particle `i` from its neighbourhood `nb`.
pub open spec fn density_spec(ps: Seq<Particle>, i: int, nb: Seq<usize>, h: int, mass: int) -> int {
    mass * kernel_sum(ps, i, nb, h)
}

/// Every index of every neighbourhood names a particle.
pub open spec fn indices_in_bounds(nbs: Seq<Vec<usize>>, n: int) -> bool {
    forall|i: int, k: int| 0 <= i < nbs.len() && 0 <= k < nbs[i].len() ==> nbs[i][k] < n
}

/// A weight sum lies between zero and one maximal weight per listed neighbour.
pub proof fn lemma_kernel_sum_bounds(ps: Seq<Particle>, i: int, nb: Seq<usize>, h: int)
    requires
        h > 0,
    ensures
        0 <= kernel_sum(ps, i, nb, h) <= nb.len() * max_weight(),
    decreases nb.len(),
{
    if nb.len() > 0 {
        lemma_kernel_sum_bounds(ps, i, nb.drop_last(), h);
        lemma_kernel_bounds(spec_distance(ps[i].position, ps[nb.last() as int].position) as int, h);
        let n = nb.len() as int;
        assert((n - 1) * max_weight() + max_weight() == n * max_weight()) by (nonlinear_arith);
    }
}

/// With a non-negative mass, every density estimate is non-negative.
pub proof fn lemma_density_nonneg(ps: Seq<Particle>, i: int, nb: Seq<usize>, h: int, mass: int)
    requires
        h > 0,
        mass >= 0,
    ensures
        density_spec(ps, i, nb, h, mass) >= 0,
{
    lemma_kernel_sum_bounds(ps, i, nb, h);
    assert(mass * kernel_sum(ps, i, nb, h) >= 0) by (nonlinear_arith)
        requires
            mass >= 0,
            kernel_sum(ps, i, nb, h) >= 0,
    ;
}

/// An empty neighbourhood gives density zero.
pub proof fn lemma_isolated_density_zero(ps: Seq<Particle>, i: int, h: int, mass: int)
    ensures
        density_spec(ps, i, Seq::<usize>::empty(), h, mass) == 0,
{
}

/// The kernel-weighted sum of one neighbourhood, before scaling by the mass.
fn neighborhood_weight(particles: &Vec<Particle>, i: usize, nb: &Vec<usize>, h: u32) -> (r: u128)
    requires
        h > 0,
        i < particles.len(),
        forall|k: int| 0 <= k < nb.len() ==> nb[k] < particles.len(),
    ensures
        r as int == kernel_sum(particles@, i as int, nb@, h as int),
        r <= nb.len() * max_weight(),
{
    let mut acc: u128 = 0;
    let mut k: usize = 0;
    while k < nb.len()
        invariant
            h > 0,
            i < particles.len(),
            forall|m: int| 0 <= m < nb.len() ==> nb[m] < particles.len(),
            k <= nb.len(),
            acc as int == kernel_sum(particles@, i as int, nb@.subrange(0, k as int), h as int),
            acc <= k * max_weight(),
        decreases nb.len() - k,
    {
        let j = nb[k];
        let w = kernel(distance(&particles[i].position, &particles[j].position), h);
        assert(nb@.subrange(0, k + 1).drop_last() =~= nb@.subrange(0, k as int));
        assert(k * max_weight() <= 0x1_0000_0000_0000_0000 * max_weight()) by (nonlinear_arith)
            requires
                k < 0x1_0000_0000_0000_0000,
        ;
        assert((k + 1) * max_weight() == k * max_weight() + max_weight()) by (nonlinear_arith);
        acc = acc + w as u128;
        k += 1;
    }
    assert(nb@.subrange(0, nb.len() as int) =~= nb@);
    acc
}

/// Estimates every particle's density as the particle mass times the sum of
/// kernel weights over its neighbourhood. Entry `i` of `neighborhoods` and of
/// the result belong to particle `i`.
pub fn calculate_densities(
    neighborhoods: &Vec<Vec<usize>>,
    particles: &Vec<Particle>,
    smoothing_length: u32,
    particle_mass: u32,
) -> (r: Result<Vec<u128>, SphError>)
    requires
        neighborhoods.len() == particles.len(),
        indices_in_bounds(neighborhoods@, particles.len() as int),
    ensures
        smoothing_length == 0 ==> r == Err::<Vec<u128>, SphError>(
            SphError::NonPositiveSmoothingLength,
        ),
        smoothing_length > 0 && particle_mass == 0 ==> r == Err::<Vec<u128>, SphError>(
            SphError::NonPositiveMass,
        ),
        smoothing_length > 0 && particle_mass > 0 ==> (r matches Ok(ds) && ds.len()
            == particles.len() && forall|i: int|
            0 <= i < ds.len() ==> #[trigger] ds[i] as int == density_spec(
                particles@,
                i,
                neighborhoods[i]@,
                smoothing_length as int,
                particle_mass as int,
            )),
{
    if smoothing_length == 0 {
        return Err(SphError::NonPositiveSmoothingLength);
    }
    if particle_mass == 0 {
        return Err(SphError::NonPositiveMass);
    }
    let n = particles.len();
    let mut res: Vec<u128> = Vec::new();
    let mut i: usize = 0;
    while i < n
        invariant
            n == particles.len(),
            n == neighborhoods.len(),
            smoothing_length > 0,
            indices_in_bounds(neighborhoods@, n as int),
            i <= n,
            res.len() == i,
            forall|a: int|
                0 <= a < i ==> #[trigger] res[a] as int == density_spec(
                    particles@,
                    a,
                    neighborhoods[a]@,
                    smoothing_length as int,
                    particle_mass as int,
                ),
        decreases n - i,
    {
        let nb = &neighborhoods[i];
        assert(forall|k: int| 0 <= k < nb.len() ==> nb[k] < particles.len()) by {
            assert(neighborhoods@[i as int] == *nb);
        }
        let sum = neighborhood_weight(particles, i, nb, smoothing_length);
        assert(sum * particle_mass <= 0x1_0000_0000_0000_0000 * max_weight() * 0x1_0000_0000)
            by (nonlinear_arith)
            requires
                sum <= nb.len() * max_weight(),
                nb.len() < 0x1_0000_0000_0000_0000,
                particle_mass < 0x1_0000_0000,
                max_weight() >= 0,
        ;
        assert(particle_mass * sum == sum * particle_mass) by (nonlinear_arith);
        res.push(particle_mass as u128 * sum);
        i += 1;
    }
    Ok(res)
}

} // verus!
