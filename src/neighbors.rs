use vstd::prelude::*;
use crate::particle::{Particle, SphError};
use crate::vector::{distance, spec_distance};

verus! {

/// Particle `j` lies in the neighbourhood of particle `i` for cutoff `range`:
/// it is another particle of the set, strictly closer than `range`.
pub open spec fn is_neighbor(ps: Seq<Particle>, range: int, i: int, j: int) -> bool {
    &&& 0 <= j < ps.len()
    &&& j != i
    &&& spec_distance(ps[i].position, ps[j].position) < range
}

pub open spec fn strictly_increasing(s: Seq<usize>) -> bool {
    forall|a: int, b: int| 0 <= a < b < s.len() ==> s[a] < s[b]
}

/// `nb` lists the neighbours of particle `i`, each exactly once, in index order.
pub open spec fn is_neighborhood(ps: Seq<Particle>, range: int, i: int, nb: Seq<usize>) -> bool {
    &&& strictly_increasing(nb)
    &&& forall|k: int| 0 <= k < nb.len() ==> is_neighbor(ps, range, i, #[trigger] nb[k] as int)
    &&& forall|j: int| #[trigger] is_neighbor(ps, range, i, j) ==> nb.contains(j as usize)
}

/// Finds, for every particle, the other particles strictly within `range`, by
/// comparing all pairs. Entry `i` of the result belongs to particle `i`.
pub fn find_neighborhoods(range: u64, particles: &Vec<Particle>) -> (r: Result<
    Vec<Vec<usize>>,
    SphError,
>)
    ensures
        range == 0 <==> r is Err,
        r is Err ==> r == Err::<Vec<Vec<usize>>, SphError>(SphError::NonPositiveRange),
        r matches Ok(ns) ==> {
            &&& ns.len() == particles.len()
            &&& forall|i: int|
                0 <= i < ns.len() ==> is_neighborhood(particles@, range as int, i, #[trigger] ns[i]@)
            &&& forall|i: int| 0 <= i < ns.len() ==> !(#[trigger] ns[i]@).contains(i as usize)
        },
{
    if range == 0 {
        return Err(SphError::NonPositiveRange);
    }
    let n = particles.len();
    let mut res: Vec<Vec<usize>> = Vec::new();
    let mut i: usize = 0;
    while i < n
        invariant
            n == particles.len(),
            i <= n,
            res.len() == i,
            forall|a: int| 0 <= a < i ==> is_neighborhood(particles@, range as int, a, #[trigger] res[a]@),
        decreases n - i,
    {
        let mut nb: Vec<usize> = Vec::new();
        let mut j: usize = 0;
        while j < n
            invariant
                n == particles.len(),
                i < n,
                j <= n,
                strictly_increasing(nb@),
                forall|k: int| 0 <= k < nb.len() ==> nb[k] < j,
                forall|k: int|
                    0 <= k < nb.len() ==> is_neighbor(particles@, range as int, i as int, #[trigger] nb[k] as int),
                forall|b: int|
                    0 <= b < j && #[trigger] is_neighbor(particles@, range as int, i as int, b) ==> nb@.contains(b as usize),
            decreases n - j,
        {
            let ghost prev = nb@;
            if j != i && distance(&particles[i].position, &particles[j].position) < range {
                nb.push(j);
            }
            assert forall|b: int|
                0 <= b < j + 1 && #[trigger] is_neighbor(
                    particles@,
                    range as int,
                    i as int,
                    b,
                ) implies nb@.contains(b as usize) by {
                if b < j {
                    let k = choose|k: int| 0 <= k < prev.len() && prev[k] == b as usize;
                    assert(nb@[k] == b as usize);
                } else {
                    assert(nb@[nb.len() - 1] == j);
                }
            }
            j += 1;
        }
        res.push(nb);
        i += 1;
    }
    assert forall|a: int| 0 <= a < res.len() implies !(#[trigger] res[a]@).contains(a as usize) by {
        if res[a]@.contains(a as usize) {
            let k = choose|k: int| 0 <= k < res[a]@.len() && res[a]@[k] == a as usize;
            assert(is_neighbor(particles@, range as int, a, res[a]@[k] as int));
        }
    }
    Ok(res)
}

/// Widening the cutoff range keeps every neighbour.
pub proof fn lemma_neighbors_grow_with_range(ps: Seq<Particle>, r1: int, r2: int, i: int, j: int)
    requires
        r1 <= r2,
        is_neighbor(ps, r1, i, j),
    ensures
        is_neighbor(ps, r2, i, j),
{
}

/// A particle is never its own neighbour.
pub proof fn lemma_no_self_neighbor(ps: Seq<Particle>, range: int, i: int)
    ensures
        !is_neighbor(ps, range, i, i),
{
}

} // verus!
