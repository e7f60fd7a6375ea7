//! Fixed-point ground-plane geometry: the vector type shared by every
//! subsystem, the order-independent interval test used by drag selection,
//! and an integer square root for distance computations.

use vstd::prelude::*;

verus! {

use crate::COORD_LIMIT;

/// A point or displacement in fixed-point world coordinates
/// (`crate::SCALE` steps per world unit). The ground plane is spanned by
/// `x` and `z`; `y` is height.
#[derive(Clone, Copy, Debug, PartialEq, Eq, Structural)]
pub struct Vec3Fx {
    pub x: i64,
    pub y: i64,
    pub z: i64,
}

impl Vec3Fx {
    /// True when every coordinate lies within the world's coordinate range.
    pub open spec fn in_bounds(self) -> bool {
        -COORD_LIMIT <= self.x <= COORD_LIMIT && -COORD_LIMIT <= self.y <= COORD_LIMIT
            && -COORD_LIMIT <= self.z <= COORD_LIMIT
    }

    pub fn new(x: i64, y: i64, z: i64) -> (v: Vec3Fx)
        ensures
            v == (Vec3Fx { x, y, z }),
    {
        Vec3Fx { x, y, z }
    }

    /// Squared ground-plane (x/z) distance to `other`.
    pub open spec fn spec_dist_sq_xz(self, other: Vec3Fx) -> int {
        (self.x - other.x) * (self.x - other.x) + (self.z - other.z) * (self.z - other.z)
    }

    /// Squared full three-dimensional distance to `other`.
    pub open spec fn spec_dist_sq(self, other: Vec3Fx) -> int {
        (self.x - other.x) * (self.x - other.x) + (self.y - other.y) * (self.y - other.y) + (
        self.z - other.z) * (self.z - other.z)
    }
}

/// Whether two points are closer than `eps`. Any coordinate difference of
/// `eps` or more already settles the answer, so the squares that are
/// actually computed stay small.
pub fn within_epsilon(a: &Vec3Fx, b: &Vec3Fx, eps: i64) -> (r: bool)
    requires
        a.in_bounds(),
        b.in_bounds(),
        0 < eps <= 1_000_000,
    ensures
        r == (a.spec_dist_sq(*b) < eps * eps),
{
    let dx = a.x - b.x;
    let dy = a.y - b.y;
    let dz = a.z - b.z;
    let ax = if dx < 0 {
        -dx
    } else {
        dx
    };
    let ay = if dy < 0 {
        -dy
    } else {
        dy
    };
    let az = if dz < 0 {
        -dz
    } else {
        dz
    };
    assert(dx * dx == ax * ax && dy * dy == ay * ay && dz * dz == az * az) by (nonlinear_arith)
        requires
            ax == if dx < 0 { -dx as int } else { dx as int },
            ay == if dy < 0 { -dy as int } else { dy as int },
            az == if dz < 0 { -dz as int } else { dz as int },
    ;
    if ax >= eps || ay >= eps || az >= eps {
        proof {
            assert(ax >= eps ==> ax * ax >= eps * eps) by (nonlinear_arith)
                requires
                    eps > 0,
            ;
            assert(ay >= eps ==> ay * ay >= eps * eps) by (nonlinear_arith)
                requires
                    eps > 0,
            ;
            assert(az >= eps ==> az * az >= eps * eps) by (nonlinear_arith)
                requires
                    eps > 0,
            ;
            assert(ax * ax >= 0 && ay * ay >= 0 && az * az >= 0) by (nonlinear_arith);
        }
        false
    } else {
        proof {
            assert(ax * ax <= 1_000_000_000_000 && ay * ay <= 1_000_000_000_000 && az * az
                <= 1_000_000_000_000 && ax * ax >= 0 && ay * ay >= 0 && az * az >= 0 && eps * eps
                <= 1_000_000_000_000) by (nonlinear_arith)
                requires
                    0 <= ax <= 1_000_000,
                    0 <= ay <= 1_000_000,
                    0 <= az <= 1_000_000,
                    0 < eps <= 1_000_000,
            ;
        }
        ax * ax + ay * ay + az * az < eps * eps
    }
}

/// Strictly-between test that ignores the order of the two interval ends.
pub open spec fn spec_is_between(x: i64, a: i64, b: i64) -> bool {
    (a < x && x < b) || (b < x && x < a)
}

/// True iff `x` lies strictly between `a` and `b`, whichever of the two is
/// smaller. Used for drag-rectangle containment on each ground-plane axis.
pub fn is_between_two_values(x: i64, a: i64, b: i64) -> (r: bool)
    ensures
        r == spec_is_between(x, a, b),
{
    (a < x && x < b) || (b < x && x < a)
}

/// The containment test does not depend on the order of the interval ends.
pub proof fn lemma_is_between_symmetric(x: i64, a: i64, b: i64)
    ensures
        spec_is_between(x, a, b) == spec_is_between(x, b, a),
{
}

/// Largest integer whose square does not exceed `n` (zero for negative `n`).
pub open spec fn sqrt_floor(n: int) -> int
    decreases n,
{
    if n <= 0 {
        0
    } else {
        let s = sqrt_floor(n - 1);
        if (s + 1) * (s + 1) <= n {
            s + 1
        } else {
            s
        }
    }
}

/// `sqrt_floor` is characterised by the bracket `r * r <= n < (r + 1) * (r + 1)`.
pub proof fn lemma_sqrt_floor_bracket(n: int)
    requires
        n >= 0,
    ensures
        0 <= sqrt_floor(n),
        sqrt_floor(n) * sqrt_floor(n) <= n,
        n < (sqrt_floor(n) + 1) * (sqrt_floor(n) + 1),
    decreases n,
{
    if n > 0 {
        let s = sqrt_floor(n - 1);
        lemma_sqrt_floor_bracket(n - 1);
        if (s + 1) * (s + 1) <= n {
            assert(sqrt_floor(n) == s + 1);
            assert(n == (s + 1) * (s + 1));
            assert((s + 1) * (s + 1) < (s + 2) * (s + 2)) by (nonlinear_arith)
                requires
                    s >= 0,
            ;
        }
    }
}

/// Any integer satisfying the square-root bracket for `n` is `sqrt_floor(n)`.
pub proof fn lemma_sqrt_floor_unique(n: int, r: int)
    requires
        0 <= r,
        r * r <= n,
        n < (r + 1) * (r + 1),
    ensures
        r == sqrt_floor(n),
{
    let s = sqrt_floor(n);
    lemma_sqrt_floor_bracket(n);
    if r < s {
        assert((r + 1) * (r + 1) <= s * s) by (nonlinear_arith)
            requires
                0 <= r + 1 <= s,
        ;
    }
    if s < r {
        assert((s + 1) * (s + 1) <= r * r) by (nonlinear_arith)
            requires
                0 <= s + 1 <= r,
        ;
    }
}

/// Fixed-point distances stay below `1 << 32`, so the binary search below
/// never multiplies values that overflow a `u64`.
pub fn isqrt(n: u64) -> (r: u64)
    ensures
        r == sqrt_floor(n as int),
        r * r <= n,
{
    let mut lo: u64 = 0;
    let mut hi: u64 = 0xFFFF_FFFF;
    while lo < hi
        invariant
            lo <= hi <= 0xFFFF_FFFF,
            lo * lo <= n,
            n < (hi + 1) * (hi + 1),
        decreases hi - lo,
    {
        let mid: u64 = lo + (hi - lo + 1) / 2;
        assert(lo < mid <= hi);
        assert(mid * mid < 0xFFFF_FFFF_FFFF_FFFF) by (nonlinear_arith)
            requires
                mid <= 0xFFFF_FFFF,
        ;
        if mid * mid <= n {
            lo = mid;
        } else {
            hi = mid - 1;
        }
    }
    proof {
        lemma_sqrt_floor_unique(n as int, lo as int);
    }
    lo
}

/// Truncating division of a possibly negative numerator by a positive
/// divisor: the magnitude is divided and the sign re-applied, matching the
/// executable unsigned arithmetic used by the steering code.
pub open spec fn div_toward_zero(num: int, den: int) -> int
    recommends
        den > 0,
{
    if num >= 0 {
        num / den
    } else {
        -((-num) / den)
    }
}

/// A quotient by `div_toward_zero` never exceeds the bound forced by a
/// bound on the numerator's magnitude.
pub proof fn lemma_div_toward_zero_bound(num: int, den: int, bound: int)
    requires
        den > 0,
        bound >= 0,
        -(den * bound) <= num <= den * bound,
    ensures
        -bound <= div_toward_zero(num, den) <= bound,
{
    if num >= 0 {
        assert(num / den <= bound && num / den >= 0) by (nonlinear_arith)
            requires
                den > 0,
                bound >= 0,
                0 <= num <= den * bound,
        ;
    } else {
        assert((-num) / den <= bound && (-num) / den >= 0) by (nonlinear_arith)
            requires
                den > 0,
                bound >= 0,
                0 < -num <= den * bound,
        ;
    }
}

/// Clamp a coordinate into the world's coordinate range.
pub open spec fn spec_clamp_coord(v: int) -> i64 {
    if v < -COORD_LIMIT {
        (-COORD_LIMIT) as i64
    } else if v > COORD_LIMIT {
        COORD_LIMIT as i64
    } else {
        v as i64
    }
}

pub fn clamp_coord(v: i64) -> (r: i64)
    ensures
        r == spec_clamp_coord(v as int),
        -COORD_LIMIT <= r <= COORD_LIMIT,
{
    if v < -COORD_LIMIT {
        -COORD_LIMIT
    } else if v > COORD_LIMIT {
        COORD_LIMIT
    } else {
        v
    }
}

} // verus!
