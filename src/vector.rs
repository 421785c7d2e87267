use vstd::prelude::*;

verus! {

/// A point or displacement in three dimensions, in integer length units.
#[derive(Clone, Copy, Debug, PartialEq, Eq, Structural)]
pub struct Vector3 {
    pub x: i32,
    pub y: i32,
    pub z: i32,
}

impl Vector3 {
    pub fn new(x: i32, y: i32, z: i32) -> (r: Vector3)
        ensures
            r == (Vector3 { x, y, z }),
    {
        Vector3 { x, y, z }
    }
}

/// The square of the Euclidean distance between `a` and `b`.
pub open spec fn dist_sq(a: Vector3, b: Vector3) -> int {
    (b.x - a.x) * (b.x - a.x) + (b.y - a.y) * (b.y - a.y) + (b.z - a.z) * (b.z - a.z)
}

/// The integer square root of `n`, rounded down.
pub open spec fn isqrt(n: nat) -> nat
    decreases n,
{
    if n == 0 {
        0
    } else {
        let r = isqrt((n - 1) as nat);
        if (r + 1) * (r + 1) <= n {
            r + 1
        } else {
            r
        }
    }
}

/// `r` is the square root of `n`, rounded down.
pub open spec fn is_floor_sqrt(r: int, n: int) -> bool {
    0 <= r && r * r <= n && n < (r + 1) * (r + 1)
}

/// The Euclidean distance between `a` and `b`, rounded down to a whole length unit.
pub open spec fn spec_distance(a: Vector3, b: Vector3) -> nat {
    isqrt(dist_sq(a, b) as nat)
}

pub proof fn lemma_isqrt_is_floor_sqrt(n: nat)
    ensures
        is_floor_sqrt(isqrt(n) as int, n as int),
    decreases n,
{
    if n > 0 {
        lemma_isqrt_is_floor_sqrt((n - 1) as nat);
        let r = isqrt((n - 1) as nat) as int;
        assert(r * r <= n - 1);
        assert(n - 1 < (r + 1) * (r + 1));
        if (r + 1) * (r + 1) > n {
        } else {
            assert((r + 1) * (r + 1) == n);
            assert(n < (r + 2) * (r + 2)) by (nonlinear_arith)
                requires
                    (r + 1) * (r + 1) == n,
                    r >= 0,
            ;
        }
    }
}

pub proof fn lemma_floor_sqrt_unique(a: int, b: int, n: int)
    requires
        is_floor_sqrt(a, n),
        is_floor_sqrt(b, n),
    ensures
        a == b,
{
    if a < b {
        assert((a + 1) * (a + 1) <= b * b) by (nonlinear_arith)
            requires
                0 <= a < b,
        ;
    } else if b < a {
        assert((b + 1) * (b + 1) <= a * a) by (nonlinear_arith)
            requires
                0 <= b < a,
        ;
    }
}

/// Any floor square root of `n` is `isqrt(n)`.
pub proof fn lemma_isqrt_from_floor_sqrt(r: int, n: nat)
    requires
        is_floor_sqrt(r, n as int),
    ensures
        isqrt(n) == r,
{
    lemma_isqrt_is_floor_sqrt(n);
    lemma_floor_sqrt_unique(r, isqrt(n) as int, n as int);
}

/// Distance is symmetric, and a point is at distance zero from itself.
pub proof fn lemma_distance_symmetric(a: Vector3, b: Vector3)
    ensures
        spec_distance(a, b) == spec_distance(b, a),
        spec_distance(a, a) == 0,
{
    assert((b.x - a.x) * (b.x - a.x) == (a.x - b.x) * (a.x - b.x)) by (nonlinear_arith);
    assert((b.y - a.y) * (b.y - a.y) == (a.y - b.y) * (a.y - b.y)) by (nonlinear_arith);
    assert((b.z - a.z) * (b.z - a.z) == (a.z - b.z) * (a.z - b.z)) by (nonlinear_arith);
    assert(dist_sq(a, b) == dist_sq(b, a));
    assert(dist_sq(a, a) == 0);
    lemma_isqrt_from_floor_sqrt(0, 0);
}

/// Rounding the distance down does not change a comparison with a whole cutoff:
/// the rounded distance is below `range` exactly when the true distance is.
pub proof fn lemma_distance_below_iff_square_below(a: Vector3, b: Vector3, range: int)
    requires
        range >= 0,
    ensures
        spec_distance(a, b) < range <==> dist_sq(a, b) < range * range,
{
    let s = dist_sq(a, b);
    assert(s >= 0) by (nonlinear_arith)
        requires
            s == (b.x - a.x) * (b.x - a.x) + (b.y - a.y) * (b.y - a.y) + (b.z - a.z) * (b.z - a.z),
    ;
    lemma_isqrt_is_floor_sqrt(s as nat);
    let r = isqrt(s as nat) as int;
    if r < range {
        assert((r + 1) * (r + 1) <= range * range) by (nonlinear_arith)
            requires
                0 <= r < range,
        ;
    } else {
        assert(range * range <= r * r) by (nonlinear_arith)
            requires
                0 <= range <= r,
        ;
    }
}

/// The floor square root of `n`, by bisection.
fn floor_sqrt(n: u128) -> (r: u64)
    requires
        n < 0x4_0000_0000_0000_0000,
    ensures
        r as nat == isqrt(n as nat),
{
    let mut lo: u128 = 0;
    let mut hi: u128 = 0x2_0000_0000;
    assert(hi * hi == 0x4_0000_0000_0000_0000);
    while hi - lo > 1
        invariant
            lo < hi <= 0x2_0000_0000,
            lo * lo <= n,
            n < hi * hi,
        decreases hi - lo,
    {
        let mid: u128 = lo + (hi - lo) / 2;
        assert(mid * mid <= 0x4_0000_0000_0000_0000) by (nonlinear_arith)
            requires
                mid < 0x2_0000_0000,
        ;
        if mid * mid <= n {
            lo = mid;
        } else {
            hi = mid;
        }
    }
    assert(hi == lo + 1);
    proof {
        lemma_isqrt_from_floor_sqrt(lo as int, n as nat);
    }
    lo as u64
}

/// The Euclidean distance between two positions, rounded down to a whole
/// length unit.
pub fn distance(a: &Vector3, b: &Vector3) -> (r: u64)
    ensures
        r as nat == spec_distance(*a, *b),
{
    let dx: i64 = b.x as i64 - a.x as i64;
    let dy: i64 = b.y as i64 - a.y as i64;
    let dz: i64 = b.z as i64 - a.z as i64;
    proof {
        assert(0 <= dx * dx <= 0x1_0000_0000_0000_0000) by (nonlinear_arith)
            requires
                -0x1_0000_0000 <= dx <= 0x1_0000_0000,
        ;
        assert(0 <= dy * dy <= 0x1_0000_0000_0000_0000) by (nonlinear_arith)
            requires
                -0x1_0000_0000 <= dy <= 0x1_0000_0000,
        ;
        assert(0 <= dz * dz <= 0x1_0000_0000_0000_0000) by (nonlinear_arith)
            requires
                -0x1_0000_0000 <= dz <= 0x1_0000_0000,
        ;
    }
    let sx: u128 = (dx as i128 * dx as i128) as u128;
    let sy: u128 = (dy as i128 * dy as i128) as u128;
    let sz: u128 = (dz as i128 * dz as i128) as u128;
    assert(sx + sy + sz == dist_sq(*a, *b));
    floor_sqrt(sx + sy + sz)
}

} // verus!
