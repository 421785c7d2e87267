use vstd::prelude::*;
use vstd::arithmetic::div_mod::{lemma_fundamental_div_mod, lemma_fundamental_div_mod_converse};
use crate::particle::SphError;

verus! {

/// `b` raised to the power `e`.
pub open spec fn power(b: int, e: nat) -> int
    decreases e,
{
    if e == 0 {
        1
    } else {
        b * power(b, (e - 1) as nat)
    }
}

/// The Tait equation of state, `(k rho0 / g) ((rho / rho0)^g - 1)`, written over
/// the common denominator `g rho0^(g-1)` and rounded down.
pub open spec fn tait(rho: int, k: int, g: nat, rho0: int) -> int {
    (k * (power(rho, g) - power(rho0, g))) / (g * power(rho0, (g - 1) as nat))
}

pub open spec fn abs(n: int) -> int {
    if n < 0 {
        -n
    } else {
        n
    }
}

/// The pressure for density `rho` can be computed in 128-bit arithmetic: the
/// powers, the denominator, the scaled difference and the result all fit.
pub open spec fn pressure_fits(rho: int, k: int, g: nat, rho0: int) -> bool {
    &&& power(rho, g) <= u128::MAX
    &&& power(rho0, g) <= u128::MAX
    &&& g * power(rho0, (g - 1) as nat) <= u128::MAX
    &&& k * abs(power(rho, g) - power(rho0, g)) <= u128::MAX
    &&& i128::MIN <= tait(rho, k, g, rho0) <= i128::MAX
}

pub proof fn lemma_power_nonneg(b: int, e: nat)
    requires
        b >= 0,
    ensures
        power(b, e) >= 0,
    decreases e,
{
    if e > 0 {
        lemma_power_nonneg(b, (e - 1) as nat);
        assert(b * power(b, (e - 1) as nat) >= 0) by (nonlinear_arith)
            requires
                b >= 0,
                power(b, (e - 1) as nat) >= 0,
        ;
    }
}

/// For a base of at least one, powers grow with the exponent.
pub proof fn lemma_power_monotone(b: int, i: nat, j: nat)
    requires
        b >= 1,
        i <= j,
    ensures
        1 <= power(b, i) <= power(b, j),
    decreases j,
{
    if j > i {
        lemma_power_monotone(b, i, (j - 1) as nat);
        assert(power(b, (j - 1) as nat) <= b * power(b, (j - 1) as nat)) by (nonlinear_arith)
            requires
                b >= 1,
                power(b, (j - 1) as nat) >= 1,
        ;
    } else if i > 0 {
        lemma_power_monotone(b, (i - 1) as nat, (i - 1) as nat);
        assert(b * power(b, (i - 1) as nat) >= 1) by (nonlinear_arith)
            requires
                b >= 1,
                power(b, (i - 1) as nat) >= 1,
        ;
    }
}

/// `b^e`, or `None` where it exceeds `u128::MAX`.
fn checked_power(b: u128, e: u32) -> (r: Option<u128>)
    ensures
        r == (if power(b as int, e as nat) <= u128::MAX {
            Some(power(b as int, e as nat) as u128)
        } else {
            None::<u128>
        }),
{
    let mut acc: u128 = 1;
    let mut i: u32 = 0;
    while i < e
        invariant
            i <= e,
            acc as int == power(b as int, i as nat),
        decreases e - i,
    {
        assert(power(b as int, (i + 1) as nat) == acc * b) by (nonlinear_arith)
            requires
                power(b as int, (i + 1) as nat) == b * power(b as int, i as nat),
                acc as int == power(b as int, i as nat),
        ;
        match acc.checked_mul(b) {
            Some(v) => {
                acc = v;
            },
            None => {
                proof {
                    if b == 0 {
                        assert(acc * b == 0) by (nonlinear_arith)
                            requires
                                b == 0,
                        ;
                    }
                    lemma_power_monotone(b as int, (i + 1) as nat, e as nat);
                }
                return None;
            },
        }
        i += 1;
    }
    Some(acc)
}

/// A negative numerator divided with rounding down: `-(n / d)`, one lower
/// where `d` does not divide `n`.
proof fn lemma_div_negated(n: int, d: int)
    requires
        n >= 0,
        d > 0,
    ensures
        (-n) / d == -(n / d) - (if n % d == 0 {
            0int
        } else {
            1int
        }),
{
    lemma_fundamental_div_mod(n, d);
    let q = n / d;
    let r = n % d;
    assert(d * q == q * d) by (nonlinear_arith);
    if r == 0 {
        assert(-n == (-q) * d + 0) by (nonlinear_arith)
            requires
                n == q * d,
        ;
        lemma_fundamental_div_mod_converse(-n, d, -q, 0);
    } else {
        assert(-n == (-q - 1) * d + (d - r)) by (nonlinear_arith)
            requires
                n == q * d + r,
        ;
        lemma_fundamental_div_mod_converse(-n, d, -q - 1, d - r);
    }
}

/// The pressure for one density, or `None` where it does not fit.
fn pressure_of(rho: u128, k: u64, g: u32, rho0: u128) -> (r: Option<i128>)
    requires
        g >= 1,
        rho0 >= 1,
    ensures
        r == (if pressure_fits(rho as int, k as int, g as nat, rho0 as int) {
            Some(tait(rho as int, k as int, g as nat, rho0 as int) as i128)
        } else {
            None::<i128>
        }),
{
    let ghost gn = g as nat;
    let ghost pa_s = power(rho as int, gn);
    let ghost pb_s = power(rho0 as int, gn);
    let ghost c_s = power(rho0 as int, (gn - 1) as nat);
    proof {
        lemma_power_monotone(rho0 as int, (gn - 1) as nat, gn);
        lemma_power_nonneg(rho as int, gn);
        assert(pb_s == rho0 * c_s);
    }
    let pa = match checked_power(rho, g) {
        Some(v) => v,
        None => return None,
    };
    let c = match checked_power(rho0, g - 1) {
        Some(v) => v,
        None => {
            assert(power(rho0 as int, (g - 1) as nat) > u128::MAX);
            assert(pb_s > u128::MAX);
            return None;
        },
    };
    let pb = match c.checked_mul(rho0) {
        Some(v) => v,
        None => {
            assert(pb_s == c * rho0) by (nonlinear_arith)
                requires
                    pb_s == rho0 * c_s,
                    c as int == c_s,
            ;
            return None;
        },
    };
    assert(pb as int == pb_s) by (nonlinear_arith)
        requires
            pb as int == c * rho0,
            pb_s == rho0 * c_s,
            c as int == c_s,
    ;
    let den = match c.checked_mul(g as u128) {
        Some(v) => v,
        None => {
            assert(g * c_s == c * g) by (nonlinear_arith)
                requires
                    c as int == c_s,
            ;
            return None;
        },
    };
    assert(den as int == g * c_s) by (nonlinear_arith)
        requires
            den as int == c * g,
            c as int == c_s,
    ;
    assert(den > 0) by (nonlinear_arith)
        requires
            den as int == c * g,
            c >= 1,
            g >= 1,
    ;
    if pa >= pb {
        let num = match (k as u128).checked_mul(pa - pb) {
            Some(v) => v,
            None => return None,
        };
        let q = num / den;
        assert(q as int == tait(rho as int, k as int, gn, rho0 as int));
        proof {
            vstd::arithmetic::div_mod::lemma_div_pos_is_pos(num as int, den as int);
        }
        if q > i128::MAX as u128 {
            return None;
        }
        Some(q as i128)
    } else {
        let num = match (k as u128).checked_mul(pb - pa) {
            Some(v) => v,
            None => return None,
        };
        let q = num / den;
        let rem = num % den;
        proof {
            lemma_div_negated(num as int, den as int);
            assert(-(num as int) == k * (pa_s - pb_s)) by (nonlinear_arith)
                requires
                    num as int == k * (pb - pa),
                    pa as int == pa_s,
                    pb as int == pb_s,
            ;
            lemma_fundamental_div_mod(num as int, den as int);
            if rem != 0 {
                assert(q < u128::MAX) by (nonlinear_arith)
                    requires
                        num == den * q + rem,
                        rem > 0,
                        rem < den,
                        num <= u128::MAX,
                        q >= 0,
                ;
            }
            vstd::arithmetic::div_mod::lemma_div_pos_is_pos(num as int, den as int);
        }
        let m: u128 = if rem != 0 {
            q + 1
        } else {
            q
        };
        assert(tait(rho as int, k as int, gn, rho0 as int) == -(m as int));
        if m > 0x8000_0000_0000_0000_0000_0000_0000_0000 {
            return None;
        }
        if m == 0 {
            Some(0)
        } else {
            Some(-((m - 1) as i128) - 1)
        }
    }
}

/// Maps every density to a pressure through the Tait equation of state with
/// stiffness `k`, exponent `gamma` and reference density `reference_density`.
/// Densities below the reference give negative pressures.
pub fn calculate_pressures(densities: &Vec<u128>, k: u64, gamma: u32, reference_density: u128) -> (r:
    Result<Vec<i128>, SphError>)
    ensures
        reference_density == 0 ==> r == Err::<Vec<i128>, SphError>(
            SphError::NonPositiveReferenceDensity,
        ),
        reference_density > 0 && gamma == 0 ==> r == Err::<Vec<i128>, SphError>(
            SphError::ZeroExponent,
        ),
        reference_density > 0 && gamma > 0 ==> {
            &&& (r == Err::<Vec<i128>, SphError>(SphError::Overflow) <==> exists|i: int|
                0 <= i < densities.len() && !pressure_fits(
                    #[trigger] densities[i] as int,
                    k as int,
                    gamma as nat,
                    reference_density as int,
                ))
            &&& r is Err ==> r == Err::<Vec<i128>, SphError>(SphError::Overflow)
            &&& r matches Ok(ps) ==> ps.len() == densities.len() && forall|i: int|
                0 <= i < ps.len() ==> #[trigger] ps[i] as int == tait(
                    densities[i] as int,
                    k as int,
                    gamma as nat,
                    reference_density as int,
                )
        },
{
    if reference_density == 0 {
        return Err(SphError::NonPositiveReferenceDensity);
    }
    if gamma == 0 {
        return Err(SphError::ZeroExponent);
    }
    let mut res: Vec<i128> = Vec::new();
    let mut i: usize = 0;
    while i < densities.len()
        invariant
            reference_density > 0,
            gamma > 0,
            i <= densities.len(),
            res.len() == i,
            forall|a: int|
                0 <= a < i ==> pressure_fits(
                    #[trigger] densities[a] as int,
                    k as int,
                    gamma as nat,
                    reference_density as int,
                ),
            forall|a: int|
                0 <= a < i ==> #[trigger] res[a] as int == tait(
                    densities[a] as int,
                    k as int,
                    gamma as nat,
                    reference_density as int,
                ),
        decreases densities.len() - i,
    {
        match pressure_of(densities[i], k, gamma, reference_density) {
            Some(p) => res.push(p),
            None => return Err(SphError::Overflow),
        }
        i += 1;
    }
    Ok(res)
}

/// At density zero the pressure is `-k rho0 / g`, rounded down.
pub proof fn lemma_pressure_at_zero_density(k: int, g: nat, rho0: int)
    requires
        g >= 1,
        rho0 >= 1,
    ensures
        tait(0, k, g, rho0) == (-(k * rho0)) / (g as int),
{
    let c = power(rho0, (g - 1) as nat);
    lemma_power_monotone(rho0, (g - 1) as nat, g);
    assert(power(0, g) == 0 * power(0, (g - 1) as nat));
    assert(power(rho0, g) == rho0 * c);
    let x = -(k * rho0);
    lemma_fundamental_div_mod(x, g as int);
    let q = x / (g as int);
    let r = x % (g as int);
    assert(k * (0 - rho0 * c) == q * (g * c) + r * c && 0 <= r * c < g * c) by (nonlinear_arith)
        requires
            x == -(k * rho0),
            x == (g as int) * q + r,
            0 <= r < g,
            c >= 1,
    ;
    lemma_fundamental_div_mod_converse(k * (0 - rho0 * c), g * c, q, r * c);
}

/// At the reference density the pressure is exactly zero.
pub proof fn lemma_pressure_zero_at_reference(k: int, g: nat, rho0: int)
    requires
        g >= 1,
        rho0 >= 1,
    ensures
        tait(rho0, k, g, rho0) == 0,
{
    lemma_power_monotone(rho0, (g - 1) as nat, g);
    let den = g * power(rho0, (g - 1) as nat);
    assert(den > 0) by (nonlinear_arith)
        requires
            g >= 1,
            power(rho0, (g - 1) as nat) >= 1,
            den == g * power(rho0, (g - 1) as nat),
    ;
    assert(k * (power(rho0, g) - power(rho0, g)) == 0);
    assert(0int / den == 0) by (nonlinear_arith)
        requires
            den > 0,
    ;
}

} // verus!
