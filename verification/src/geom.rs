//! Fixed-point plane geometry: 2D vectors, axis-aligned bounding boxes and
//! their strict-overlap test, coordinate clamping, and integer square roots
//! used to normalize direction vectors.

use vstd::prelude::*;

verus! {

use crate::POS_LIMIT;
use crate::SCALE_LIMIT;

/// A 2D point or vector on the fixed-point grid (one map unit = `crate::UNIT`).
#[derive(Clone, Copy, Debug, PartialEq, Eq, Structural)]
pub struct Vec2I {
    pub x: i64,
    pub y: i64,
}

impl Vec2I {
    /// Both coordinates lie inside the arena.
    pub open spec fn in_world(self) -> bool {
        &&& -POS_LIMIT <= self.x <= POS_LIMIT
        &&& -POS_LIMIT <= self.y <= POS_LIMIT
    }
}

/// `v` pulled back onto the arena interval `[-POS_LIMIT, POS_LIMIT]`.
pub open spec fn clamped(v: int) -> int {
    if v < -POS_LIMIT {
        -POS_LIMIT as int
    } else if v > POS_LIMIT {
        POS_LIMIT as int
    } else {
        v
    }
}

/// Saturate one coordinate at the arena edge.
pub fn clamp_coord(v: i64) -> (r: i64)
    ensures
        r == clamped(v as int),
{
    if v < -POS_LIMIT {
        -POS_LIMIT
    } else if v > POS_LIMIT {
        POS_LIMIT
    } else {
        v
    }
}

/// The squared Euclidean distance between two points.
pub open spec fn dist_squared(a: Vec2I, b: Vec2I) -> int {
    (b.x - a.x) * (b.x - a.x) + (b.y - a.y) * (b.y - a.y)
}

/// `v` pulled back onto the legal scale interval `[1, SCALE_LIMIT]`.
pub open spec fn clamped_scale(v: int) -> int {
    if v < 1 {
        1
    } else if v > SCALE_LIMIT {
        SCALE_LIMIT as int
    } else {
        v
    }
}

/// Saturate a scale at its legal interval.
pub fn clamp_scale(v: i64) -> (r: i64)
    ensures
        r == clamped_scale(v as int),
{
    if v < 1 {
        1
    } else if v > SCALE_LIMIT {
        SCALE_LIMIT
    } else {
        v
    }
}

/// An axis-aligned bounding box; empty whenever `min >= max` on either axis.
#[derive(Clone, Copy, Debug, PartialEq, Eq, Structural)]
pub struct Aabb {
    pub min_x: i64,
    pub min_y: i64,
    pub max_x: i64,
    pub max_y: i64,
}

/// The intersection rectangle of `a` and `b` is non-empty: the boxes overlap
/// strictly on both axes (touching edges do not count).
pub open spec fn aabb_overlaps(a: Aabb, b: Aabb) -> bool {
    &&& a.min_x < b.max_x
    &&& b.min_x < a.max_x
    &&& a.min_y < b.max_y
    &&& b.min_y < a.max_y
}

/// The box of an entity drawn on a 16-unit sprite cell: centered at
/// `center` with half-extent `8 * scale` per axis.
pub open spec fn spec_aabb_from_center_scale(center: Vec2I, scale: int) -> Aabb {
    Aabb {
        min_x: (center.x - 8 * scale) as i64,
        min_y: (center.y - 8 * scale) as i64,
        max_x: (center.x + 8 * scale) as i64,
        max_y: (center.y + 8 * scale) as i64,
    }
}

/// Build an entity's bounding box from its center and uniform scale.
pub fn aabb_from_center_scale(center: Vec2I, scale: i64) -> (r: Aabb)
    requires
        center.in_world(),
        0 <= scale <= SCALE_LIMIT,
    ensures
        r == spec_aabb_from_center_scale(center, scale as int),
{
    Aabb {
        min_x: center.x - 8 * scale,
        min_y: center.y - 8 * scale,
        max_x: center.x + 8 * scale,
        max_y: center.y + 8 * scale,
    }
}

/// Strict AABB overlap test.
pub fn aabbs_overlap(a: Aabb, b: Aabb) -> (r: bool)
    ensures
        r == aabb_overlaps(a, b),
{
    a.min_x < b.max_x && b.min_x < a.max_x && a.min_y < b.max_y && b.min_y < a.max_y
}

/// Collision symmetry: whether two boxes have a non-empty intersection does
/// not depend on the order in which they are compared.
pub proof fn lemma_overlap_symmetric(a: Aabb, b: Aabb)
    ensures
        aabb_overlaps(a, b) == aabb_overlaps(b, a),
{
}

/// Largest input `isqrt` accepts: squared distances between arena points
/// stay below it (`(2 * POS_LIMIT)^2 + (2 * POS_LIMIT)^2 == 8 * 10^18`).
pub const MAX_SQUARE_INPUT: i64 = 8_100_000_000_000_000_000;

/// The integer square root, rounded down.
pub open spec fn sqrt_floor(n: int) -> int
    decreases n,
{
    if n <= 0 {
        0
    } else {
        let r = sqrt_floor(n - 1);
        if (r + 1) * (r + 1) <= n {
            r + 1
        } else {
            r
        }
    }
}

/// `sqrt_floor(n)` is the unique nonnegative root with
/// `r^2 <= n < (r + 1)^2`.
pub proof fn lemma_sqrt_floor_props(n: int)
    requires
        n >= 0,
    ensures
        0 <= sqrt_floor(n),
        sqrt_floor(n) * sqrt_floor(n) <= n,
        (sqrt_floor(n) + 1) * (sqrt_floor(n) + 1) > n,
    decreases n,
{
    if n > 0 {
        lemma_sqrt_floor_props(n - 1);
        let r = sqrt_floor(n - 1);
        if (r + 1) * (r + 1) <= n {
            assert((r + 2) * (r + 2) > n) by (nonlinear_arith)
                requires
                    (r + 1) * (r + 1) > n - 1,
                    (r + 1) * (r + 1) <= n,
                    r >= 0,
            ;
        }
    }
}

/// Two nonnegative integers bracketing `n` the same way are equal.
pub proof fn lemma_sqrt_unique(n: int, a: int, b: int)
    by (nonlinear_arith)
    requires
        0 <= a,
        0 <= b,
        a * a <= n < (a + 1) * (a + 1),
        b * b <= n < (b + 1) * (b + 1),
    ensures
        a == b,
{
}

/// Integer square root, rounded down, by bisection.
pub fn isqrt(n: i64) -> (r: i64)
    requires
        0 <= n <= MAX_SQUARE_INPUT,
    ensures
        r == sqrt_floor(n as int),
        0 <= r <= 2_850_000_000,
        r * r <= n,
        (r + 1) * (r + 1) > n,
{
    let mut lo: i64 = 0;
    let mut hi: i64 = 2_850_000_000;
    assert((hi + 1) * (hi + 1) > n);
    while lo < hi
        invariant
            0 <= lo <= hi <= 2_850_000_000,
            lo * lo <= n <= MAX_SQUARE_INPUT,
            (hi + 1) * (hi + 1) > n,
        decreases hi - lo,
    {
        let mid = lo + (hi - lo + 1) / 2;
        assert(mid * mid <= 8_122_500_000_000_000_000) by (nonlinear_arith)
            requires
                0 <= mid <= 2_850_000_000,
        ;
        if mid * mid <= n {
            lo = mid;
        } else {
            hi = mid - 1;
        }
    }
    proof {
        lemma_sqrt_floor_props(n as int);
        lemma_sqrt_unique(n as int, lo as int, sqrt_floor(n as int));
    }
    lo
}

/// The integer square root, rounded up.
pub open spec fn sqrt_ceil(n: int) -> int {
    if sqrt_floor(n) * sqrt_floor(n) == n {
        sqrt_floor(n)
    } else {
        sqrt_floor(n) + 1
    }
}

/// `sqrt_ceil(n)` is the least nonnegative integer whose square covers `n`.
pub proof fn lemma_sqrt_ceil_props(n: int)
    requires
        n >= 0,
    ensures
        0 <= sqrt_ceil(n),
        sqrt_ceil(n) * sqrt_ceil(n) >= n,
        n > 0 ==> (sqrt_ceil(n) - 1) * (sqrt_ceil(n) - 1) < n,
        n > 0 ==> sqrt_ceil(n) >= 1,
{
    lemma_sqrt_floor_props(n);
    let f = sqrt_floor(n);
    if f * f == n {
        if n > 0 {
            assert(f >= 1) by (nonlinear_arith)
                requires
                    f >= 0,
                    f * f == n,
                    n > 0,
            ;
            assert((f - 1) * (f - 1) < n) by (nonlinear_arith)
                requires
                    f >= 1,
                    f * f == n,
                    n > 0,
            ;
        }
    }
}

/// The smaller of two mathematical integers.
pub open spec fn imin(a: int, b: int) -> int {
    if a <= b {
        a
    } else {
        b
    }
}

/// Absolute value on the mathematical integers.
pub open spec fn iabs(v: int) -> int {
    if v < 0 {
        -v
    } else {
        v
    }
}

/// One component of a vector rescaled along its own direction: the value of
/// `delta * num / len` computed on magnitudes, with the sign of `delta`
/// restored (integer division rounds the magnitude down).
pub open spec fn scaled_toward(delta: int, num: int, len: int) -> int {
    if delta >= 0 {
        (delta * num) / len
    } else {
        -(((-delta) * num) / len)
    }
}

/// Rescale one component of a direction vector of length `len` to a vector
/// of length `num` (both lengths fixed-point, division rounds toward zero).
pub fn scale_component(delta: i64, num: i64, len: i64) -> (r: i64)
    requires
        -4_000_000_000 <= delta <= 4_000_000_000,
        0 <= num <= 1_000_000,
        1 <= len,
    ensures
        r == scaled_toward(delta as int, num as int, len as int),
        iabs(r as int) * len <= iabs(delta as int) * num,
        iabs(delta as int) * num < (iabs(r as int) + 1) * len,
        (delta >= 0) ==> (r >= 0),
        (delta <= 0) ==> (r <= 0),
        iabs(delta as int) <= len ==> -num <= r <= num,
{
    let a = if delta < 0 {
        -delta
    } else {
        delta
    };
    assert(0 <= a * num <= 4_000_000_000_000_000) by (nonlinear_arith)
        requires
            0 <= a <= 4_000_000_000,
            0 <= num <= 1_000_000,
    ;
    let prod = a * num;
    let q = prod / len;
    proof {
        vstd::arithmetic::div_mod::lemma_fundamental_div_mod(prod as int, len as int);
        vstd::arithmetic::div_mod::lemma_mod_bound(prod as int, len as int);
        vstd::arithmetic::div_mod::lemma_div_pos_is_pos(prod as int, len as int);
        assert(q * len <= prod && prod < (q + 1) * len) by (nonlinear_arith)
            requires
                prod == len * q + ((prod as int) % (len as int)),
                0 <= ((prod as int) % (len as int)) < len,
        ;
        if a <= len {
            assert(prod <= len * num) by (nonlinear_arith)
                requires
                    0 <= a <= len,
                    0 <= num,
                    prod == a * num,
            ;
            assert(q <= num) by (nonlinear_arith)
                requires
                    q * len <= prod,
                    prod <= len * num,
                    len >= 1,
                    q >= 0,
                    num >= 0,
            ;
        }
    }
    if delta < 0 {
        -q
    } else {
        q
    }
}

/// Integer square root, rounded up.
pub fn isqrt_ceil(n: i64) -> (r: i64)
    requires
        0 <= n <= MAX_SQUARE_INPUT,
    ensures
        r == sqrt_ceil(n as int),
        0 <= r <= 2_850_000_001,
        r * r >= n,
        n > 0 ==> r >= 1 && (r - 1) * (r - 1) < n,
{
    let f = isqrt(n);
    proof {
        lemma_sqrt_ceil_props(n as int);
    }
    if f * f == n {
        f
    } else {
        f + 1
    }
}

} // verus!
