use vstd::prelude::*;

verus! {

/// Kernel weights are fixed-point numbers: a stored weight `w` stands for
/// `w / WEIGHT_SCALE`.
pub const WEIGHT_SCALE: u64 = 65536;

pub open spec fn cube(n: int) -> int {
    n * n * n
}

/// The unnormalised cubic smoothing kernel at distance `d` for smoothing length
/// `h`, scaled by `WEIGHT_SCALE` and rounded down. With `q = d / h` the weight is
/// `1 + 1.5 q^2 + 0.75 q^3` for `q <= 1`, `0.25 (2 - q)^3` for `1 < q <= 2` and
/// zero beyond; both polynomials are written over the common denominator `4 h^3`.
/// The two pieces do not join at `q = 1`: the inner one gives `3.25` there, the
/// outer one `0.25`, and `q = 1` itself belongs to the inner piece.
pub open spec fn kernel_spec(d: int, h: int) -> int {
    if d <= h {
        (WEIGHT_SCALE * (4 * cube(h) + 6 * h * d * d + 3 * cube(d))) / (4 * cube(h))
    } else if d <= 2 * h {
        (WEIGHT_SCALE * cube(2 * h - d)) / (4 * cube(h))
    } else {
        0
    }
}

/// The largest weight the kernel gives: `3.25` at `q = 1`.
pub open spec fn max_weight() -> int {
    13 * WEIGHT_SCALE / 4
}

proof fn lemma_ratio_bound(num: int, den: int, k: int)
    requires
        den > 0,
        0 <= num <= k * den,
    ensures
        0 <= num / den <= k,
{
    vstd::arithmetic::div_mod::lemma_div_is_ordered(num, k * den, den);
    assert(k * den == den * k) by (nonlinear_arith);
    vstd::arithmetic::div_mod::lemma_div_multiples_vanish(k, den);
    vstd::arithmetic::div_mod::lemma_div_pos_is_pos(num, den);
}

/// Every weight lies between zero and `max_weight()`.
pub proof fn lemma_kernel_bounds(d: int, h: int)
    requires
        d >= 0,
        h > 0,
    ensures
        0 <= kernel_spec(d, h) <= max_weight(),
{
    let h3 = cube(h);
    assert(h3 > 0) by (nonlinear_arith)
        requires
            h > 0,
            h3 == h * h * h,
    ;
    if d <= h {
        let inner = 4 * h3 + 6 * h * d * d + 3 * cube(d);
        assert(0 <= inner <= 13 * h3) by (nonlinear_arith)
            requires
                0 <= d <= h,
                h3 == h * h * h,
                inner == 4 * h3 + 6 * h * d * d + 3 * (d * d * d),
        ;
        assert(0 <= WEIGHT_SCALE * inner <= (13 * WEIGHT_SCALE) * h3) by (nonlinear_arith)
            requires
                0 <= inner <= 13 * h3,
        ;
        lemma_ratio_bound(WEIGHT_SCALE * inner, 4 * h3, (13 * WEIGHT_SCALE / 4) as int);
    } else if d <= 2 * h {
        let e = 2 * h - d;
        assert(0 <= cube(e) <= h3) by (nonlinear_arith)
            requires
                0 <= e < h,
                h3 == h * h * h,
        ;
        assert(0 <= WEIGHT_SCALE * cube(e) <= (WEIGHT_SCALE / 4) * (4 * h3)) by (nonlinear_arith)
            requires
                0 <= cube(e) <= h3,
        ;
        lemma_ratio_bound(WEIGHT_SCALE * cube(e), 4 * h3, (WEIGHT_SCALE / 4) as int);
    }
}

/// The smoothing kernel weight for distance `d` and smoothing length `h`.
pub fn kernel(d: u64, h: u32) -> (w: u64)
    requires
        h > 0,
    ensures
        w as int == kernel_spec(d as int, h as int),
        w <= max_weight(),
{
    proof {
        lemma_kernel_bounds(d as int, h as int);
    }
    let hh: u128 = h as u128;
    assert(hh * hh <= 0x1_0000_0000_0000_0000) by (nonlinear_arith)
        requires
            hh < 0x1_0000_0000,
    ;
    assert(hh * hh * hh <= 0x1_0000_0000_0000_0000_0000_0000) by (nonlinear_arith)
        requires
            hh < 0x1_0000_0000,
            hh * hh <= 0x1_0000_0000_0000_0000,
    ;
    let h3: u128 = hh * hh * hh;
    assert(h3 > 0) by (nonlinear_arith)
        requires
            hh > 0,
            h3 == hh * hh * hh,
    ;
    if d <= h as u64 {
        let dd: u128 = d as u128;
        assert(dd * dd <= hh * hh && dd * dd * dd <= h3 && 6 * hh * dd <= 6 * hh * hh
            && 6 * hh * dd * dd <= 6 * h3 && 6 * hh * dd <= 6 * 0x1_0000_0000_0000_0000)
            by (nonlinear_arith)
            requires
                dd <= hh,
                hh < 0x1_0000_0000,
                h3 == hh * hh * hh,
        ;
        let inner: u128 = 4 * h3 + 6 * hh * dd * dd + 3 * (dd * dd * dd);
        assert(WEIGHT_SCALE * inner <= WEIGHT_SCALE * (13 * h3)) by (nonlinear_arith)
            requires
                inner <= 13 * h3,
        ;
        let w: u128 = (WEIGHT_SCALE as u128 * inner) / (4 * h3);
        w as u64
    } else if d <= 2 * (h as u64) {
        let e: u128 = (2 * (h as u64) - d) as u128;
        assert(e * e <= hh * hh && e * e * e <= h3) by (nonlinear_arith)
            requires
                e < hh,
                h3 == hh * hh * hh,
        ;
        assert(WEIGHT_SCALE * (e * e * e) <= WEIGHT_SCALE * h3) by (nonlinear_arith)
            requires
                e * e * e <= h3,
        ;
        let w: u128 = (WEIGHT_SCALE as u128 * (e * e * e)) / (4 * h3);
        w as u64
    } else {
        0
    }
}

/// The kernel never gives a negative weight.
pub proof fn lemma_kernel_nonneg(d: int, h: int)
    requires
        d >= 0,
        h > 0,
    ensures
        kernel_spec(d, h) >= 0,
{
    lemma_kernel_bounds(d, h);
}

/// The kernel vanishes from twice the smoothing length on.
pub proof fn lemma_kernel_vanishes_beyond_support(d: int, h: int)
    requires
        h > 0,
        d >= 2 * h,
    ensures
        kernel_spec(d, h) == 0,
{
    if d == 2 * h {
        let den = 4 * cube(h);
        assert(cube(2 * h - d) == 0);
        assert(den > 0 && 0int / den == 0) by (nonlinear_arith)
            requires
                h > 0,
                den == 4 * (h * h * h),
        ;
    }
}

/// At `q = 1` the weight is `3.25`, the largest the kernel gives; at `q = 0` it is `1`.
pub proof fn lemma_kernel_at_smoothing_length(h: int)
    requires
        h > 0,
    ensures
        kernel_spec(h, h) == max_weight(),
        kernel_spec(0, h) == WEIGHT_SCALE,
{
    let h3 = cube(h);
    assert(4 * h3 + 6 * h * h * h + 3 * cube(h) == 13 * h3) by (nonlinear_arith)
        requires
            h3 == h * h * h,
            cube(h) == h * h * h,
    ;
    assert(WEIGHT_SCALE * (13 * h3) == 212992 * (4 * h3));
    assert(13 * WEIGHT_SCALE / 4 == 212992);
    assert(h3 > 0) by (nonlinear_arith)
        requires
            h > 0,
            h3 == h * h * h,
    ;
    vstd::arithmetic::div_mod::lemma_div_multiples_vanish((13 * WEIGHT_SCALE / 4) as int, 4 * h3);
    assert(4 * h3 + 6 * h * 0 * 0 + 3 * cube(0) == 4 * h3);
    vstd::arithmetic::div_mod::lemma_div_multiples_vanish(WEIGHT_SCALE as int, 4 * h3);
    assert(WEIGHT_SCALE * (4 * h3) == (4 * h3) * WEIGHT_SCALE) by (nonlinear_arith);
    assert((13 * WEIGHT_SCALE / 4) * (4 * h3) == (4 * h3) * (13 * WEIGHT_SCALE / 4)) by (nonlinear_arith);
}

} // verus!
